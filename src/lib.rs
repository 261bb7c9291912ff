//! Cursor and walker protocols over a sorted key-value store, together with the
//! message identifiers and request/response framing of the `eth` wire protocol.

pub mod message;
pub mod rlp;
pub mod rlp_decode;
pub mod order;
pub mod cursor;
pub mod walker;
pub mod codec;
pub mod model;
pub mod eth66message;
pub mod eth67message;
pub mod eth68message;
