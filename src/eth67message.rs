use vstd::prelude::*;
use crate::message::{DecodeError, EthMessageID};
use crate::rlp::{append_bytes, bytes_to_vec};

verus! {

/// A message of the `eth` protocol, version 67. Broadcast messages come first,
/// then request/response pairs. Each payload is carried as its encoded bytes.
#[derive(Clone, Debug, PartialEq, Eq)]
pub enum Eth67Message {
    NewBlockHashes(Vec<u8>),
    NewBlock(Vec<u8>),
    Transactions(Vec<u8>),
    NewPooledTransactionHashes(Vec<u8>),
    GetBlockHeaders(Vec<u8>),
    BlockHeaders(Vec<u8>),
    GetBlockBodies(Vec<u8>),
    BlockBodies(Vec<u8>),
    GetPooledTransactions(Vec<u8>),
    PooledTransactions(Vec<u8>),
    GetReceipts(Vec<u8>),
    Receipts(Vec<u8>),
}

/// Whether `id` names a message of Eth67Message.
pub open spec fn eth67_admits(id: EthMessageID) -> bool {
    id == EthMessageID::NewBlockHashes || id == EthMessageID::NewBlock || id == EthMessageID::Transactions || id == EthMessageID::NewPooledTransactionHashes || id == EthMessageID::GetBlockHeaders || id == EthMessageID::BlockHeaders || id == EthMessageID::GetBlockBodies || id == EthMessageID::BlockBodies || id == EthMessageID::GetPooledTransactions || id == EthMessageID::PooledTransactions || id == EthMessageID::GetReceipts || id == EthMessageID::Receipts
}

impl Eth67Message {
    /// The identifier of this message.
    pub open spec fn spec_id(&self) -> EthMessageID {
        match self {
            Eth67Message::NewBlockHashes(_) => EthMessageID::NewBlockHashes,
            Eth67Message::NewBlock(_) => EthMessageID::NewBlock,
            Eth67Message::Transactions(_) => EthMessageID::Transactions,
            Eth67Message::NewPooledTransactionHashes(_) => EthMessageID::NewPooledTransactionHashes,
            Eth67Message::GetBlockHeaders(_) => EthMessageID::GetBlockHeaders,
            Eth67Message::BlockHeaders(_) => EthMessageID::BlockHeaders,
            Eth67Message::GetBlockBodies(_) => EthMessageID::GetBlockBodies,
            Eth67Message::BlockBodies(_) => EthMessageID::BlockBodies,
            Eth67Message::GetPooledTransactions(_) => EthMessageID::GetPooledTransactions,
            Eth67Message::PooledTransactions(_) => EthMessageID::PooledTransactions,
            Eth67Message::GetReceipts(_) => EthMessageID::GetReceipts,
            Eth67Message::Receipts(_) => EthMessageID::Receipts,
        }
    }

    /// The encoded payload of this message.
    pub open spec fn body(&self) -> Seq<u8> {
        match self {
            Eth67Message::NewBlockHashes(b) => b@,
            Eth67Message::NewBlock(b) => b@,
            Eth67Message::Transactions(b) => b@,
            Eth67Message::NewPooledTransactionHashes(b) => b@,
            Eth67Message::GetBlockHeaders(b) => b@,
            Eth67Message::BlockHeaders(b) => b@,
            Eth67Message::GetBlockBodies(b) => b@,
            Eth67Message::BlockBodies(b) => b@,
            Eth67Message::GetPooledTransactions(b) => b@,
            Eth67Message::PooledTransactions(b) => b@,
            Eth67Message::GetReceipts(b) => b@,
            Eth67Message::Receipts(b) => b@,
        }
    }

    /// Returns the message's ID.
    pub fn message_id(&self) -> (r: EthMessageID)
        ensures
            r == self.spec_id(),
            eth67_admits(r),
    {
        match self {
            Eth67Message::NewBlockHashes(_) => EthMessageID::NewBlockHashes,
            Eth67Message::NewBlock(_) => EthMessageID::NewBlock,
            Eth67Message::Transactions(_) => EthMessageID::Transactions,
            Eth67Message::NewPooledTransactionHashes(_) => EthMessageID::NewPooledTransactionHashes,
            Eth67Message::GetBlockHeaders(_) => EthMessageID::GetBlockHeaders,
            Eth67Message::BlockHeaders(_) => EthMessageID::BlockHeaders,
            Eth67Message::GetBlockBodies(_) => EthMessageID::GetBlockBodies,
            Eth67Message::BlockBodies(_) => EthMessageID::BlockBodies,
            Eth67Message::GetPooledTransactions(_) => EthMessageID::GetPooledTransactions,
            Eth67Message::PooledTransactions(_) => EthMessageID::PooledTransactions,
            Eth67Message::GetReceipts(_) => EthMessageID::GetReceipts,
            Eth67Message::Receipts(_) => EthMessageID::Receipts,
        }
    }

    /// Builds the message named by `message_id`, taking the rest of `buf` as its payload.
    /// Fails, leaving `buf` as it was, where the identifier is not one of this version.
    pub fn decode(message_id: EthMessageID, buf: &mut &[u8]) -> (r: Result<Eth67Message, DecodeError>)
        ensures
            r is Ok <==> eth67_admits(message_id),
            !eth67_admits(message_id) ==> r == Err::<Eth67Message, DecodeError>(DecodeError::InvalidMessageId),
            r matches Ok(m) ==> m.spec_id() == message_id && m.body() == old(buf)@ && final(buf)@.len() == 0,
            r is Err ==> final(buf)@ == old(buf)@,
    {
        let body = bytes_to_vec(buf);
        let m = match message_id {
            EthMessageID::NewBlockHashes => Eth67Message::NewBlockHashes(body),
            EthMessageID::NewBlock => Eth67Message::NewBlock(body),
            EthMessageID::Transactions => Eth67Message::Transactions(body),
            EthMessageID::NewPooledTransactionHashes => Eth67Message::NewPooledTransactionHashes(body),
            EthMessageID::GetBlockHeaders => Eth67Message::GetBlockHeaders(body),
            EthMessageID::BlockHeaders => Eth67Message::BlockHeaders(body),
            EthMessageID::GetBlockBodies => Eth67Message::GetBlockBodies(body),
            EthMessageID::BlockBodies => Eth67Message::BlockBodies(body),
            EthMessageID::GetPooledTransactions => Eth67Message::GetPooledTransactions(body),
            EthMessageID::PooledTransactions => Eth67Message::PooledTransactions(body),
            EthMessageID::GetReceipts => Eth67Message::GetReceipts(body),
            EthMessageID::Receipts => Eth67Message::Receipts(body),
            _ => return Err(DecodeError::InvalidMessageId),
        };
        let (_, rest) = buf.split_at(buf.len());
        *buf = rest;
        Ok(m)
    }

    /// Appends the message's payload to `out`.
    pub fn encode(&self, out: &mut Vec<u8>)
        ensures
            final(out)@ == old(out)@ + self.body(),
    {
        match self {
            Eth67Message::NewBlockHashes(b) => append_bytes(out, b.as_slice()),
            Eth67Message::NewBlock(b) => append_bytes(out, b.as_slice()),
            Eth67Message::Transactions(b) => append_bytes(out, b.as_slice()),
            Eth67Message::NewPooledTransactionHashes(b) => append_bytes(out, b.as_slice()),
            Eth67Message::GetBlockHeaders(b) => append_bytes(out, b.as_slice()),
            Eth67Message::BlockHeaders(b) => append_bytes(out, b.as_slice()),
            Eth67Message::GetBlockBodies(b) => append_bytes(out, b.as_slice()),
            Eth67Message::BlockBodies(b) => append_bytes(out, b.as_slice()),
            Eth67Message::GetPooledTransactions(b) => append_bytes(out, b.as_slice()),
            Eth67Message::PooledTransactions(b) => append_bytes(out, b.as_slice()),
            Eth67Message::GetReceipts(b) => append_bytes(out, b.as_slice()),
            Eth67Message::Receipts(b) => append_bytes(out, b.as_slice()),
        }
        assert(final(out)@ =~= old(out)@ + self.body());
    }

    /// Number of bytes that `encode` appends.
    pub fn length(&self) -> (r: usize)
        ensures
            r == self.body().len(),
    {
        match self {
            Eth67Message::NewBlockHashes(b) => b.len(),
            Eth67Message::NewBlock(b) => b.len(),
            Eth67Message::Transactions(b) => b.len(),
            Eth67Message::NewPooledTransactionHashes(b) => b.len(),
            Eth67Message::GetBlockHeaders(b) => b.len(),
            Eth67Message::BlockHeaders(b) => b.len(),
            Eth67Message::GetBlockBodies(b) => b.len(),
            Eth67Message::BlockBodies(b) => b.len(),
            Eth67Message::GetPooledTransactions(b) => b.len(),
            Eth67Message::PooledTransactions(b) => b.len(),
            Eth67Message::GetReceipts(b) => b.len(),
            Eth67Message::Receipts(b) => b.len(),
        }
    }
}

} // verus!
