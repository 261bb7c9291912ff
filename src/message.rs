use vstd::prelude::*;
use crate::rlp_decode::{
    decode_byte_items, decode_list_header, decode_uint, lemma_list_header_sound,
    lemma_request_pair_sound, lemma_uint_sound, parse_request_pair,
};
use crate::rlp::{
    append_bytes, byte_items_length, encode_byte_list, encode_header, encode_uint,
    length_of_length, rlp_byte_items, rlp_byte_list, rlp_header, rlp_uint, uint_length,
};

verus! {

/// Identifiers of `eth` protocol messages.
#[derive(Clone, Copy, Debug, PartialEq, Eq, Structural)]
pub enum EthMessageID {
    Status,
    NewBlockHashes,
    Transactions,
    GetBlockHeaders,
    BlockHeaders,
    GetBlockBodies,
    BlockBodies,
    NewBlock,
    NewPooledTransactionHashes,
    GetPooledTransactions,
    PooledTransactions,
    GetNodeData,
    NodeData,
    GetReceipts,
    Receipts,
}

/// The wire byte of each message identifier.
pub open spec fn id_byte(id: EthMessageID) -> u8 {
    match id {
        EthMessageID::Status => 0x00,
        EthMessageID::NewBlockHashes => 0x01,
        EthMessageID::Transactions => 0x02,
        EthMessageID::GetBlockHeaders => 0x03,
        EthMessageID::BlockHeaders => 0x04,
        EthMessageID::GetBlockBodies => 0x05,
        EthMessageID::BlockBodies => 0x06,
        EthMessageID::NewBlock => 0x07,
        EthMessageID::NewPooledTransactionHashes => 0x08,
        EthMessageID::GetPooledTransactions => 0x09,
        EthMessageID::PooledTransactions => 0x0a,
        EthMessageID::GetNodeData => 0x0d,
        EthMessageID::NodeData => 0x0e,
        EthMessageID::GetReceipts => 0x0f,
        EthMessageID::Receipts => 0x10,
    }
}

/// Whether `b` is the wire byte of some message identifier.
pub open spec fn is_id_byte(b: int) -> bool {
    (0x00 <= b <= 0x0a) || (0x0d <= b <= 0x10)
}

/// Errors raised while reading wire bytes.
#[derive(Clone, Copy, Debug, PartialEq, Eq, Structural)]
pub enum DecodeError {
    /// The input ended before the item did.
    InputTooShort,
    /// The first byte names no known message.
    InvalidMessageId,
    /// A list was expected and something else was found.
    UnexpectedString,
    /// A string was expected and a list was found.
    UnexpectedList,
    /// An integer was written with leading zero bytes.
    LeadingZero,
    /// A single byte below 0x80 was written with a string header.
    NonCanonicalSingleByte,
    /// A length was written in a longer form than needed.
    NonCanonicalSize,
    /// An integer does not fit the target type.
    Overflow,
    /// The payload length in a header disagrees with its contents.
    ListLengthMismatch,
}

impl EthMessageID {
    /// The wire byte of this identifier.
    pub fn as_u8(&self) -> (r: u8)
        ensures
            r == id_byte(*self),
    {
        match self {
            EthMessageID::Status => 0x00,
            EthMessageID::NewBlockHashes => 0x01,
            EthMessageID::Transactions => 0x02,
            EthMessageID::GetBlockHeaders => 0x03,
            EthMessageID::BlockHeaders => 0x04,
            EthMessageID::GetBlockBodies => 0x05,
            EthMessageID::BlockBodies => 0x06,
            EthMessageID::NewBlock => 0x07,
            EthMessageID::NewPooledTransactionHashes => 0x08,
            EthMessageID::GetPooledTransactions => 0x09,
            EthMessageID::PooledTransactions => 0x0a,
            EthMessageID::GetNodeData => 0x0d,
            EthMessageID::NodeData => 0x0e,
            EthMessageID::GetReceipts => 0x0f,
            EthMessageID::Receipts => 0x10,
        }
    }

    /// Appends the identifier's single wire byte to `out`.
    pub fn encode(&self, out: &mut Vec<u8>)
        ensures
            final(out)@ == old(out)@.push(id_byte(*self)),
    {
        out.push(self.as_u8());
    }

    /// The encoded length of an identifier: always one byte.
    pub fn length(&self) -> (r: usize)
        ensures
            r == 1,
    {
        1
    }

    /// The identifier whose wire value is `value`, if there is one.
    pub fn try_from(value: usize) -> (r: Result<EthMessageID, &'static str>)
        ensures
            r is Ok <==> is_id_byte(value as int),
            r matches Ok(id) ==> id_byte(id) == value,
    {
        match value {
            0x00 => Ok(EthMessageID::Status),
            0x01 => Ok(EthMessageID::NewBlockHashes),
            0x02 => Ok(EthMessageID::Transactions),
            0x03 => Ok(EthMessageID::GetBlockHeaders),
            0x04 => Ok(EthMessageID::BlockHeaders),
            0x05 => Ok(EthMessageID::GetBlockBodies),
            0x06 => Ok(EthMessageID::BlockBodies),
            0x07 => Ok(EthMessageID::NewBlock),
            0x08 => Ok(EthMessageID::NewPooledTransactionHashes),
            0x09 => Ok(EthMessageID::GetPooledTransactions),
            0x0a => Ok(EthMessageID::PooledTransactions),
            0x0d => Ok(EthMessageID::GetNodeData),
            0x0e => Ok(EthMessageID::NodeData),
            0x0f => Ok(EthMessageID::GetReceipts),
            0x10 => Ok(EthMessageID::Receipts),
            _ => Err("Invalid message ID"),
        }
    }

    /// Reads an identifier from the first byte of `buf` and advances `buf` past it.
    /// On failure `buf` is left as it was.
    pub fn decode(buf: &mut &[u8]) -> (r: Result<EthMessageID, DecodeError>)
        ensures
            old(buf)@.len() == 0 ==> r == Err::<EthMessageID, DecodeError>(
                DecodeError::InputTooShort,
            ),
            old(buf)@.len() > 0 ==> (r is Ok <==> is_id_byte(old(buf)@[0] as int)),
            old(buf)@.len() > 0 && !is_id_byte(old(buf)@[0] as int) ==> r
                == Err::<EthMessageID, DecodeError>(DecodeError::InvalidMessageId),
            r matches Ok(id) ==> id_byte(id) == old(buf)@[0] && final(buf)@ == old(buf)@.subrange(
                1,
                old(buf)@.len() as int,
            ),
            r is Err ==> final(buf)@ == old(buf)@,
    {
        if buf.len() == 0 {
            return Err(DecodeError::InputTooShort);
        }
        let first = buf[0];
        match EthMessageID::try_from(first as usize) {
            Ok(id) => {
                let (_, rest) = buf.split_at(1);
                *buf = rest;
                Ok(id)
            },
            Err(_) => Err(DecodeError::InvalidMessageId),
        }
    }
}

/// The status message exchanged in the protocol handshake; its payload is carried as
/// its encoded bytes.
#[derive(Clone, Debug, PartialEq, Eq)]
pub enum EthStatusMessage {
    Status(Vec<u8>),
}

impl EthStatusMessage {
    /// Returns the message's ID.
    pub fn message_id(&self) -> (r: EthMessageID)
        ensures
            r == EthMessageID::Status,
    {
        match self {
            EthStatusMessage::Status(_) => EthMessageID::Status,
        }
    }

    /// Builds a status message from the rest of `buf`; any identifier but `Status` fails
    /// and leaves `buf` as it was.
    pub fn decode(message_id: EthMessageID, buf: &mut &[u8]) -> (r: Result<
        EthStatusMessage,
        DecodeError,
    >)
        ensures
            r is Ok <==> message_id == EthMessageID::Status,
            message_id != EthMessageID::Status ==> r == Err::<EthStatusMessage, DecodeError>(
                DecodeError::InvalidMessageId,
            ),
            r matches Ok(EthStatusMessage::Status(b)) ==> b@ == old(buf)@ && final(buf)@.len()
                == 0,
            r is Err ==> final(buf)@ == old(buf)@,
    {
        match message_id {
            EthMessageID::Status => {
                let body = crate::rlp::bytes_to_vec(buf);
                let (_, rest) = buf.split_at(buf.len());
                *buf = rest;
                Ok(EthStatusMessage::Status(body))
            },
            _ => Err(DecodeError::InvalidMessageId),
        }
    }

    /// Appends the status payload to `out`.
    pub fn encode(&self, out: &mut Vec<u8>)
        ensures
            final(out)@ == old(out)@ + (match self {
                EthStatusMessage::Status(b) => b@,
            }),
    {
        match self {
            EthStatusMessage::Status(b) => append_bytes(out, b.as_slice()),
        }
    }

    /// Number of bytes that `encode` appends.
    pub fn length(&self) -> (r: usize)
        ensures
            r == (match self {
                EthStatusMessage::Status(b) => b@.len(),
            }),
    {
        match self {
            EthStatusMessage::Status(b) => b.len(),
        }
    }
}

/// A message sent alike to many peers; its payload is carried as its encoded bytes.
#[derive(Clone, Debug, PartialEq, Eq)]
pub enum EthBroadcastMessage {
    NewBlock(Vec<u8>),
    Transactions(Vec<u8>),
}

impl EthBroadcastMessage {
    /// The identifier of this message.
    pub open spec fn spec_id(&self) -> EthMessageID {
        match self {
            EthBroadcastMessage::NewBlock(_) => EthMessageID::NewBlock,
            EthBroadcastMessage::Transactions(_) => EthMessageID::Transactions,
        }
    }

    /// The encoded payload of this message.
    pub open spec fn body(&self) -> Seq<u8> {
        match self {
            EthBroadcastMessage::NewBlock(b) => b@,
            EthBroadcastMessage::Transactions(b) => b@,
        }
    }

    /// Returns the message's ID.
    pub fn message_id(&self) -> (r: EthMessageID)
        ensures
            r == self.spec_id(),
    {
        match self {
            EthBroadcastMessage::NewBlock(_) => EthMessageID::NewBlock,
            EthBroadcastMessage::Transactions(_) => EthMessageID::Transactions,
        }
    }

    /// Appends the message's payload to `out`.
    pub fn encode(&self, out: &mut Vec<u8>)
        ensures
            final(out)@ == old(out)@ + self.body(),
    {
        match self {
            EthBroadcastMessage::NewBlock(b) => append_bytes(out, b.as_slice()),
            EthBroadcastMessage::Transactions(b) => append_bytes(out, b.as_slice()),
        }
    }

    /// Number of bytes that `encode` appends.
    pub fn length(&self) -> (r: usize)
        ensures
            r == self.body().len(),
    {
        match self {
            EthBroadcastMessage::NewBlock(b) => b.len(),
            EthBroadcastMessage::Transactions(b) => b.len(),
        }
    }
}

/// A broadcast message together with its identifier; on the wire the identifier's byte
/// comes first, then the payload.
#[derive(Clone, Debug, PartialEq, Eq)]
pub struct ProtocolBroadcastMessage {
    pub message_type: EthMessageID,
    pub message: EthBroadcastMessage,
}

impl ProtocolBroadcastMessage {
    /// The wire form: identifier byte, then payload.
    pub open spec fn wire(&self) -> Seq<u8> {
        seq![id_byte(self.message_type)] + self.message.body()
    }

    /// Wraps `message`, taking its identifier from it.
    pub fn from(message: EthBroadcastMessage) -> (r: ProtocolBroadcastMessage)
        ensures
            r.message_type == message.spec_id(),
            r.message == message,
    {
        ProtocolBroadcastMessage { message_type: message.message_id(), message }
    }

    /// Appends the identifier byte and then the payload to `out`.
    pub fn encode(&self, out: &mut Vec<u8>)
        ensures
            final(out)@ == old(out)@ + self.wire(),
    {
        self.message_type.encode(out);
        self.message.encode(out);
        assert(final(out)@ =~= old(out)@ + self.wire());
    }

    /// Number of bytes that `encode` appends.
    pub fn length(&self) -> (r: usize)
        requires
            self.wire().len() <= usize::MAX,
        ensures
            r == self.wire().len(),
    {
        self.message_type.length() + self.message.length()
    }
}

/// A request or response of the request/response style messages: the payload together
/// with the request id that correlates the two.
#[derive(Clone, Debug, PartialEq, Eq)]
pub struct RequestPair<T> {
    /// id for the contained request or response message
    pub request_id: u64,
    /// the request or response message payload
    pub message: T,
}

/// The RLP form of a request pair whose payload is a list of byte-sized integers: a
/// list of the request id and the payload.
pub open spec fn rlp_request_pair(id: u64, msg: Seq<u8>) -> Seq<u8> {
    let payload = rlp_uint(id as nat) + rlp_byte_list(msg);
    rlp_header(true, payload.len()) + payload
}

impl RequestPair<Vec<u8>> {
    pub open spec fn rlp(&self) -> Seq<u8> {
        rlp_request_pair(self.request_id, self.message@)
    }

    /// Appends the RLP form of the pair to `out`.
    pub fn encode(&self, out: &mut Vec<u8>)
        requires
            self.rlp().len() <= usize::MAX,
        ensures
            final(out)@ == old(out)@ + self.rlp(),
    {
        let payload = self.payload_length();
        encode_header(true, payload, out);
        encode_uint(self.request_id, out);
        encode_byte_list(self.message.as_slice(), out);
        assert(final(out)@ =~= old(out)@ + self.rlp());
    }

    fn payload_length(&self) -> (r: usize)
        requires
            self.rlp().len() <= usize::MAX,
        ensures
            r == (rlp_uint(self.request_id as nat) + rlp_byte_list(self.message@)).len(),
    {
        let items = byte_items_length(self.message.as_slice());
        let list = length_of_length(items) + items;
        uint_length(self.request_id) + list
    }

    /// Reads a pair from the front of `buf` and advances `buf` past it; only the canonical
    /// form is accepted. On failure `buf` is left as it was.
    pub fn decode(buf: &mut &[u8]) -> (r: Result<RequestPair<Vec<u8>>, DecodeError>)
        ensures
            r is Ok <==> parse_request_pair(old(buf)@) is Ok,
            r matches Err(e) ==> parse_request_pair(old(buf)@) == Err::<
                (u64, Seq<u8>, nat),
                DecodeError,
            >(e) && final(buf)@ == old(buf)@,
            r matches Ok(p) ==> parse_request_pair(old(buf)@)->Ok_0.0 == p.request_id
                && parse_request_pair(old(buf)@)->Ok_0.1 == p.message@ && old(buf)@ == p.rlp()
                + final(buf)@,
    {
        let s: &[u8] = *buf;
        let (len, h) = match decode_list_header(s) {
            Ok(x) => x,
            Err(e) => return Err(e),
        };
        proof {
            lemma_list_header_sound(s@);
        }
        if s.len() - h < len {
            return Err(DecodeError::InputTooShort);
        }
        let (_, after) = s.split_at(h);
        let (pl, _) = after.split_at(len);
        assert(pl@ =~= s@.subrange(h as int, (h + len) as int));
        let (request_id, n) = match decode_uint(pl, 8) {
            Ok(x) => x,
            Err(e) => return Err(e),
        };
        proof {
            lemma_uint_sound(pl@, 8);
        }
        let (_, tail) = pl.split_at(n);
        assert(tail@ =~= pl@.skip(n as int));
        let (ml, mh) = match decode_list_header(tail) {
            Ok(x) => x,
            Err(e) => return Err(e),
        };
        proof {
            lemma_list_header_sound(tail@);
        }
        if tail.len() - mh != ml {
            return Err(DecodeError::ListLengthMismatch);
        }
        let (_, items) = tail.split_at(mh);
        assert(items@ =~= pl@.subrange((n + mh) as int, pl@.len() as int));
        let message = match decode_byte_items(items) {
            Ok(m) => m,
            Err(e) => return Err(e),
        };
        let (_, rest) = s.split_at(h + len);
        *buf = rest;
        let pair = RequestPair { request_id, message };
        proof {
            lemma_request_pair_sound(s@);
            assert(s@ =~= s@.subrange(0, (h + len) as int) + rest@);
        }
        Ok(pair)
    }

    /// Number of bytes of the RLP form of the pair.
    pub fn length(&self) -> (r: usize)
        requires
            self.rlp().len() <= usize::MAX,
        ensures
            r == self.rlp().len(),
    {
        let payload = self.payload_length();
        payload + length_of_length(payload)
    }
}

} // verus!
