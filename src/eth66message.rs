use vstd::prelude::*;
use crate::message::{DecodeError, EthMessageID};
use crate::rlp::{append_bytes, bytes_to_vec};

verus! {

/// A message of the `eth` protocol, version 66. Broadcast messages come first,
/// then request/response pairs. Each payload is carried as its encoded bytes.
#[derive(Clone, Debug, PartialEq, Eq)]
pub enum Eth66Message {
    NewBlockHashes(Vec<u8>),
    NewBlock(Vec<u8>),
    Transactions(Vec<u8>),
    NewPooledTransactionHashes(Vec<u8>),
    GetBlockHeaders(Vec<u8>),
    BlockHeaders(Vec<u8>),
    GetBlockBodies(Vec<u8>),
    BlockBodies(Vec<u8>),
    GetPooledTransactions(Vec<u8>),
    PooledTransactions(Vec<u8>),
    GetNodeData(Vec<u8>),
    NodeData(Vec<u8>),
    GetReceipts(Vec<u8>),
    Receipts(Vec<u8>),
}

/// Whether `id` names a message of Eth66Message.
pub open spec fn eth66_admits(id: EthMessageID) -> bool {
    id == EthMessageID::NewBlockHashes || id == EthMessageID::NewBlock || id == EthMessageID::Transactions || id == EthMessageID::NewPooledTransactionHashes || id == EthMessageID::GetBlockHeaders || id == EthMessageID::BlockHeaders || id == EthMessageID::GetBlockBodies || id == EthMessageID::BlockBodies || id == EthMessageID::GetPooledTransactions || id == EthMessageID::PooledTransactions || id == EthMessageID::GetNodeData || id == EthMessageID::NodeData || id == EthMessageID::GetReceipts || id == EthMessageID::Receipts
}

impl Eth66Message {
    /// The identifier of this message.
    pub open spec fn spec_id(&self) -> EthMessageID {
        match self {
            Eth66Message::NewBlockHashes(_) => EthMessageID::NewBlockHashes,
            Eth66Message::NewBlock(_) => EthMessageID::NewBlock,
            Eth66Message::Transactions(_) => EthMessageID::Transactions,
            Eth66Message::NewPooledTransactionHashes(_) => EthMessageID::NewPooledTransactionHashes,
            Eth66Message::GetBlockHeaders(_) => EthMessageID::GetBlockHeaders,
            Eth66Message::BlockHeaders(_) => EthMessageID::BlockHeaders,
            Eth66Message::GetBlockBodies(_) => EthMessageID::GetBlockBodies,
            Eth66Message::BlockBodies(_) => EthMessageID::BlockBodies,
            Eth66Message::GetPooledTransactions(_) => EthMessageID::GetPooledTransactions,
            Eth66Message::PooledTransactions(_) => EthMessageID::PooledTransactions,
            Eth66Message::GetNodeData(_) => EthMessageID::GetNodeData,
            Eth66Message::NodeData(_) => EthMessageID::NodeData,
            Eth66Message::GetReceipts(_) => EthMessageID::GetReceipts,
            Eth66Message::Receipts(_) => EthMessageID::Receipts,
        }
    }

    /// The encoded payload of this message.
    pub open spec fn body(&self) -> Seq<u8> {
        match self {
            Eth66Message::NewBlockHashes(b) => b@,
            Eth66Message::NewBlock(b) => b@,
            Eth66Message::Transactions(b) => b@,
            Eth66Message::NewPooledTransactionHashes(b) => b@,
            Eth66Message::GetBlockHeaders(b) => b@,
            Eth66Message::BlockHeaders(b) => b@,
            Eth66Message::GetBlockBodies(b) => b@,
            Eth66Message::BlockBodies(b) => b@,
            Eth66Message::GetPooledTransactions(b) => b@,
            Eth66Message::PooledTransactions(b) => b@,
            Eth66Message::GetNodeData(b) => b@,
            Eth66Message::NodeData(b) => b@,
            Eth66Message::GetReceipts(b) => b@,
            Eth66Message::Receipts(b) => b@,
        }
    }

    /// Returns the message's ID.
    pub fn message_id(&self) -> (r: EthMessageID)
        ensures
            r == self.spec_id(),
            eth66_admits(r),
    {
        match self {
            Eth66Message::NewBlockHashes(_) => EthMessageID::NewBlockHashes,
            Eth66Message::NewBlock(_) => EthMessageID::NewBlock,
            Eth66Message::Transactions(_) => EthMessageID::Transactions,
            Eth66Message::NewPooledTransactionHashes(_) => EthMessageID::NewPooledTransactionHashes,
            Eth66Message::GetBlockHeaders(_) => EthMessageID::GetBlockHeaders,
            Eth66Message::BlockHeaders(_) => EthMessageID::BlockHeaders,
            Eth66Message::GetBlockBodies(_) => EthMessageID::GetBlockBodies,
            Eth66Message::BlockBodies(_) => EthMessageID::BlockBodies,
            Eth66Message::GetPooledTransactions(_) => EthMessageID::GetPooledTransactions,
            Eth66Message::PooledTransactions(_) => EthMessageID::PooledTransactions,
            Eth66Message::GetNodeData(_) => EthMessageID::GetNodeData,
            Eth66Message::NodeData(_) => EthMessageID::NodeData,
            Eth66Message::GetReceipts(_) => EthMessageID::GetReceipts,
            Eth66Message::Receipts(_) => EthMessageID::Receipts,
        }
    }

    /// Builds the message named by `message_id`, taking the rest of `buf` as its payload.
    /// Fails, leaving `buf` as it was, where the identifier is not one of this version.
    pub fn decode(message_id: EthMessageID, buf: &mut &[u8]) -> (r: Result<Eth66Message, DecodeError>)
        ensures
            r is Ok <==> eth66_admits(message_id),
            !eth66_admits(message_id) ==> r == Err::<Eth66Message, DecodeError>(DecodeError::InvalidMessageId),
            r matches Ok(m) ==> m.spec_id() == message_id && m.body() == old(buf)@ && final(buf)@.len() == 0,
            r is Err ==> final(buf)@ == old(buf)@,
    {
        let body = bytes_to_vec(buf);
        let m = match message_id {
            EthMessageID::NewBlockHashes => Eth66Message::NewBlockHashes(body),
            EthMessageID::NewBlock => Eth66Message::NewBlock(body),
            EthMessageID::Transactions => Eth66Message::Transactions(body),
            EthMessageID::NewPooledTransactionHashes => Eth66Message::NewPooledTransactionHashes(body),
            EthMessageID::GetBlockHeaders => Eth66Message::GetBlockHeaders(body),
            EthMessageID::BlockHeaders => Eth66Message::BlockHeaders(body),
            EthMessageID::GetBlockBodies => Eth66Message::GetBlockBodies(body),
            EthMessageID::BlockBodies => Eth66Message::BlockBodies(body),
            EthMessageID::GetPooledTransactions => Eth66Message::GetPooledTransactions(body),
            EthMessageID::PooledTransactions => Eth66Message::PooledTransactions(body),
            EthMessageID::GetNodeData => Eth66Message::GetNodeData(body),
            EthMessageID::NodeData => Eth66Message::NodeData(body),
            EthMessageID::GetReceipts => Eth66Message::GetReceipts(body),
            EthMessageID::Receipts => Eth66Message::Receipts(body),
            _ => return Err(DecodeError::InvalidMessageId),
        };
        let (_, rest) = buf.split_at(buf.len());
        *buf = rest;
        Ok(m)
    }

    /// Appends the message's payload to `out`.
    pub fn encode(&self, out: &mut Vec<u8>)
        ensures
            final(out)@ == old(out)@ + self.body(),
    {
        match self {
            Eth66Message::NewBlockHashes(b) => append_bytes(out, b.as_slice()),
            Eth66Message::NewBlock(b) => append_bytes(out, b.as_slice()),
            Eth66Message::Transactions(b) => append_bytes(out, b.as_slice()),
            Eth66Message::NewPooledTransactionHashes(b) => append_bytes(out, b.as_slice()),
            Eth66Message::GetBlockHeaders(b) => append_bytes(out, b.as_slice()),
            Eth66Message::BlockHeaders(b) => append_bytes(out, b.as_slice()),
            Eth66Message::GetBlockBodies(b) => append_bytes(out, b.as_slice()),
            Eth66Message::BlockBodies(b) => append_bytes(out, b.as_slice()),
            Eth66Message::GetPooledTransactions(b) => append_bytes(out, b.as_slice()),
            Eth66Message::PooledTransactions(b) => append_bytes(out, b.as_slice()),
            Eth66Message::GetNodeData(b) => append_bytes(out, b.as_slice()),
            Eth66Message::NodeData(b) => append_bytes(out, b.as_slice()),
            Eth66Message::GetReceipts(b) => append_bytes(out, b.as_slice()),
            Eth66Message::Receipts(b) => append_bytes(out, b.as_slice()),
        }
        assert(final(out)@ =~= old(out)@ + self.body());
    }

    /// Number of bytes that `encode` appends.
    pub fn length(&self) -> (r: usize)
        ensures
            r == self.body().len(),
    {
        match self {
            Eth66Message::NewBlockHashes(b) => b.len(),
            Eth66Message::NewBlock(b) => b.len(),
            Eth66Message::Transactions(b) => b.len(),
            Eth66Message::NewPooledTransactionHashes(b) => b.len(),
            Eth66Message::GetBlockHeaders(b) => b.len(),
            Eth66Message::BlockHeaders(b) => b.len(),
            Eth66Message::GetBlockBodies(b) => b.len(),
            Eth66Message::BlockBodies(b) => b.len(),
            Eth66Message::GetPooledTransactions(b) => b.len(),
            Eth66Message::PooledTransactions(b) => b.len(),
            Eth66Message::GetNodeData(b) => b.len(),
            Eth66Message::NodeData(b) => b.len(),
            Eth66Message::GetReceipts(b) => b.len(),
            Eth66Message::Receipts(b) => b.len(),
        }
    }
}

} // verus!
