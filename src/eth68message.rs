use vstd::prelude::*;
use crate::message::{DecodeError, EthMessageID};
use crate::rlp::{append_bytes, bytes_to_vec};

verus! {

/// A message of the `eth` protocol, version 68. Broadcast messages come first,
/// then request/response pairs. Each payload is carried as its encoded bytes.
#[derive(Clone, Debug, PartialEq, Eq)]
pub enum Eth68Message {
    NewBlockHashes(Vec<u8>),
    NewBlock(Vec<u8>),
    Transactions(Vec<u8>),
    NewPooledTransactionHashes(Vec<u8>),
    GetBlockHeaders(Vec<u8>),
    BlockHeaders(Vec<u8>),
    GetBlockBodies(Vec<u8>),
    BlockBodies(Vec<u8>),
    GetPooledTransactions(Vec<u8>),
    PooledTransactions(Vec<u8>),
    GetReceipts(Vec<u8>),
    Receipts(Vec<u8>),
}

/// Whether `id` names a message of Eth68Message.
pub open spec fn eth68_admits(id: EthMessageID) -> bool {
    id == EthMessageID::NewBlockHashes || id == EthMessageID::NewBlock || id == EthMessageID::Transactions || id == EthMessageID::NewPooledTransactionHashes || id == EthMessageID::GetBlockHeaders || id == EthMessageID::BlockHeaders || id == EthMessageID::GetBlockBodies || id == EthMessageID::BlockBodies || id == EthMessageID::GetPooledTransactions || id == EthMessageID::PooledTransactions || id == EthMessageID::GetReceipts || id == EthMessageID::Receipts
}

impl Eth68Message {
    /// The identifier of this message.
    pub open spec fn spec_id(&self) -> EthMessageID {
        match self {
            Eth68Message::NewBlockHashes(_) => EthMessageID::NewBlockHashes,
            Eth68Message::NewBlock(_) => EthMessageID::NewBlock,
            Eth68Message::Transactions(_) => EthMessageID::Transactions,
            Eth68Message::NewPooledTransactionHashes(_) => EthMessageID::NewPooledTransactionHashes,
            Eth68Message::GetBlockHeaders(_) => EthMessageID::GetBlockHeaders,
            Eth68Message::BlockHeaders(_) => EthMessageID::BlockHeaders,
            Eth68Message::GetBlockBodies(_) => EthMessageID::GetBlockBodies,
            Eth68Message::BlockBodies(_) => EthMessageID::BlockBodies,
            Eth68Message::GetPooledTransactions(_) => EthMessageID::GetPooledTransactions,
            Eth68Message::PooledTransactions(_) => EthMessageID::PooledTransactions,
            Eth68Message::GetReceipts(_) => EthMessageID::GetReceipts,
            Eth68Message::Receipts(_) => EthMessageID::Receipts,
        }
    }

    /// The encoded payload of this message.
    pub open spec fn body(&self) -> Seq<u8> {
        match self {
            Eth68Message::NewBlockHashes(b) => b@,
            Eth68Message::NewBlock(b) => b@,
            Eth68Message::Transactions(b) => b@,
            Eth68Message::NewPooledTransactionHashes(b) => b@,
            Eth68Message::GetBlockHeaders(b) => b@,
            Eth68Message::BlockHeaders(b) => b@,
            Eth68Message::GetBlockBodies(b) => b@,
            Eth68Message::BlockBodies(b) => b@,
            Eth68Message::GetPooledTransactions(b) => b@,
            Eth68Message::PooledTransactions(b) => b@,
            Eth68Message::GetReceipts(b) => b@,
            Eth68Message::Receipts(b) => b@,
        }
    }

    /// Returns the message's ID.
    pub fn message_id(&self) -> (r: EthMessageID)
        ensures
            r == self.spec_id(),
            eth68_admits(r),
    {
        match self {
            Eth68Message::NewBlockHashes(_) => EthMessageID::NewBlockHashes,
            Eth68Message::NewBlock(_) => EthMessageID::NewBlock,
            Eth68Message::Transactions(_) => EthMessageID::Transactions,
            Eth68Message::NewPooledTransactionHashes(_) => EthMessageID::NewPooledTransactionHashes,
            Eth68Message::GetBlockHeaders(_) => EthMessageID::GetBlockHeaders,
            Eth68Message::BlockHeaders(_) => EthMessageID::BlockHeaders,
            Eth68Message::GetBlockBodies(_) => EthMessageID::GetBlockBodies,
            Eth68Message::BlockBodies(_) => EthMessageID::BlockBodies,
            Eth68Message::GetPooledTransactions(_) => EthMessageID::GetPooledTransactions,
            Eth68Message::PooledTransactions(_) => EthMessageID::PooledTransactions,
            Eth68Message::GetReceipts(_) => EthMessageID::GetReceipts,
            Eth68Message::Receipts(_) => EthMessageID::Receipts,
        }
    }

    /// Builds the message named by `message_id`, taking the rest of `buf` as its payload.
    /// Fails, leaving `buf` as it was, where the identifier is not one of this version.
    pub fn decode(message_id: EthMessageID, buf: &mut &[u8]) -> (r: Result<Eth68Message, DecodeError>)
        ensures
            r is Ok <==> eth68_admits(message_id),
            !eth68_admits(message_id) ==> r == Err::<Eth68Message, DecodeError>(DecodeError::InvalidMessageId),
            r matches Ok(m) ==> m.spec_id() == message_id && m.body() == old(buf)@ && final(buf)@.len() == 0,
            r is Err ==> final(buf)@ == old(buf)@,
    {
        let body = bytes_to_vec(buf);
        let m = match message_id {
            EthMessageID::NewBlockHashes => Eth68Message::NewBlockHashes(body),
            EthMessageID::NewBlock => Eth68Message::NewBlock(body),
            EthMessageID::Transactions => Eth68Message::Transactions(body),
            EthMessageID::NewPooledTransactionHashes => Eth68Message::NewPooledTransactionHashes(body),
            EthMessageID::GetBlockHeaders => Eth68Message::GetBlockHeaders(body),
            EthMessageID::BlockHeaders => Eth68Message::BlockHeaders(body),
            EthMessageID::GetBlockBodies => Eth68Message::GetBlockBodies(body),
            EthMessageID::BlockBodies => Eth68Message::BlockBodies(body),
            EthMessageID::GetPooledTransactions => Eth68Message::GetPooledTransactions(body),
            EthMessageID::PooledTransactions => Eth68Message::PooledTransactions(body),
            EthMessageID::GetReceipts => Eth68Message::GetReceipts(body),
            EthMessageID::Receipts => Eth68Message::Receipts(body),
            _ => return Err(DecodeError::InvalidMessageId),
        };
        let (_, rest) = buf.split_at(buf.len());
        *buf = rest;
        Ok(m)
    }

    /// Appends the message's payload to `out`.
    pub fn encode(&self, out: &mut Vec<u8>)
        ensures
            final(out)@ == old(out)@ + self.body(),
    {
        match self {
            Eth68Message::NewBlockHashes(b) => append_bytes(out, b.as_slice()),
            Eth68Message::NewBlock(b) => append_bytes(out, b.as_slice()),
            Eth68Message::Transactions(b) => append_bytes(out, b.as_slice()),
            Eth68Message::NewPooledTransactionHashes(b) => append_bytes(out, b.as_slice()),
            Eth68Message::GetBlockHeaders(b) => append_bytes(out, b.as_slice()),
            Eth68Message::BlockHeaders(b) => append_bytes(out, b.as_slice()),
            Eth68Message::GetBlockBodies(b) => append_bytes(out, b.as_slice()),
            Eth68Message::BlockBodies(b) => append_bytes(out, b.as_slice()),
            Eth68Message::GetPooledTransactions(b) => append_bytes(out, b.as_slice()),
            Eth68Message::PooledTransactions(b) => append_bytes(out, b.as_slice()),
            Eth68Message::GetReceipts(b) => append_bytes(out, b.as_slice()),
            Eth68Message::Receipts(b) => append_bytes(out, b.as_slice()),
        }
        assert(final(out)@ =~= old(out)@ + self.body());
    }

    /// Number of bytes that `encode` appends.
    pub fn length(&self) -> (r: usize)
        ensures
            r == self.body().len(),
    {
        match self {
            Eth68Message::NewBlockHashes(b) => b.len(),
            Eth68Message::NewBlock(b) => b.len(),
            Eth68Message::Transactions(b) => b.len(),
            Eth68Message::NewPooledTransactionHashes(b) => b.len(),
            Eth68Message::GetBlockHeaders(b) => b.len(),
            Eth68Message::BlockHeaders(b) => b.len(),
            Eth68Message::GetBlockBodies(b) => b.len(),
            Eth68Message::BlockBodies(b) => b.len(),
            Eth68Message::GetPooledTransactions(b) => b.len(),
            Eth68Message::PooledTransactions(b) => b.len(),
            Eth68Message::GetReceipts(b) => b.len(),
            Eth68Message::Receipts(b) => b.len(),
        }
    }
}

} // verus!
