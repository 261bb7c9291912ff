use reth_cursor::eth66message::Eth66Message;
use reth_cursor::eth67message::Eth67Message;
use reth_cursor::eth68message::Eth68Message;
use reth_cursor::message::{
    DecodeError, EthBroadcastMessage, EthMessageID, EthStatusMessage, ProtocolBroadcastMessage,
    RequestPair,
};

fn hex(s: &str) -> Vec<u8> {
    (0..s.len()).step_by(2).map(|i| u8::from_str_radix(&s[i..i + 2], 16).unwrap()).collect()
}

fn encode(value: &RequestPair<Vec<u8>>) -> Vec<u8> {
    let mut buf = vec![];
    value.encode(&mut buf);
    buf
}

#[test]
fn request_pair_encode() {
    let request_pair = RequestPair { request_id: 1337, message: vec![5u8] };
    let expected = hex("c5820539c105");
    let got = encode(&request_pair);
    assert_eq!(expected[..], got, "expected: {expected:X?}, got: {got:X?}",);
}

#[test]
fn request_pair_length_matches_encoding() {
    let expected = RequestPair { request_id: 1337, message: vec![5u8] };
    let raw_pair = hex("c5820539c105");
    assert_eq!(expected.length(), raw_pair.len());
}

#[test]
fn request_pair_long_payload_uses_long_header() {
    // 60 items of 0x01: payload of 60 bytes, so the list header takes two bytes.
    let pair = RequestPair { request_id: 0, message: vec![1u8; 60] };
    let got = encode(&pair);
    assert_eq!(&got[..4], &[0xf8, 0x3f, 0x80, 0xf8][..]);
    assert_eq!(got[4], 60);
    assert_eq!(got.len(), pair.length());
    assert_eq!(got.len(), 2 + 1 + 2 + 60);
}

#[test]
fn request_pair_high_bytes_take_two() {
    let pair = RequestPair { request_id: 0x7f, message: vec![0u8, 0x80, 0xff] };
    assert_eq!(encode(&pair), hex("c77fc580818081ff"));
    assert_eq!(pair.length(), 8);
}

#[test]
fn message_id_round_trips_through_its_byte() {
    for value in 0usize..=0x20 {
        match EthMessageID::try_from(value) {
            Ok(id) => {
                assert_eq!(id.as_u8() as usize, value);
                let mut out = vec![];
                id.encode(&mut out);
                assert_eq!(out, vec![value as u8]);
                assert_eq!(id.length(), 1);
                let bytes = [value as u8, 0xaa];
                let mut buf: &[u8] = &bytes;
                assert_eq!(EthMessageID::decode(&mut buf), Ok(id));
                assert_eq!(buf, &[0xaa][..]);
            }
            Err(e) => {
                assert!(value == 0x0b || value == 0x0c || value > 0x10);
                assert_eq!(e, "Invalid message ID");
            }
        }
    }
}

#[test]
fn message_id_decode_errors() {
    let mut empty: &[u8] = &[];
    assert_eq!(EthMessageID::decode(&mut empty), Err(DecodeError::InputTooShort));
    let bytes = [0x0b, 0x01];
    let mut buf: &[u8] = &bytes;
    assert_eq!(EthMessageID::decode(&mut buf), Err(DecodeError::InvalidMessageId));
    assert_eq!(buf, &bytes[..]);
}

#[test]
fn versioned_messages_accept_their_ids() {
    let body = [0xc1, 0x05];
    let mut buf: &[u8] = &body;
    let m = Eth66Message::decode(EthMessageID::GetNodeData, &mut buf).unwrap();
    assert_eq!(m, Eth66Message::GetNodeData(body.to_vec()));
    assert_eq!(m.message_id(), EthMessageID::GetNodeData);
    assert!(buf.is_empty());
    let mut out = vec![];
    m.encode(&mut out);
    assert_eq!(out, body.to_vec());
    assert_eq!(m.length(), 2);

    let mut buf: &[u8] = &body;
    assert_eq!(
        Eth67Message::decode(EthMessageID::GetNodeData, &mut buf),
        Err(DecodeError::InvalidMessageId)
    );
    assert_eq!(buf, &body[..]);
    let mut buf: &[u8] = &body;
    assert_eq!(Eth68Message::decode(EthMessageID::NodeData, &mut buf), Err(DecodeError::InvalidMessageId));
    let mut buf: &[u8] = &body;
    let m = Eth68Message::decode(EthMessageID::Receipts, &mut buf).unwrap();
    assert_eq!(m.message_id(), EthMessageID::Receipts);
    let mut buf: &[u8] = &body;
    assert_eq!(Eth66Message::decode(EthMessageID::Status, &mut buf), Err(DecodeError::InvalidMessageId));
    let mut buf: &[u8] = &body;
    let m = Eth67Message::decode(EthMessageID::NewBlock, &mut buf).unwrap();
    assert_eq!(m, Eth67Message::NewBlock(body.to_vec()));
}

#[test]
fn status_message_only_under_status_id() {
    let body = [0x01, 0x02];
    let mut buf: &[u8] = &body;
    let m = EthStatusMessage::decode(EthMessageID::Status, &mut buf).unwrap();
    assert_eq!(m.message_id(), EthMessageID::Status);
    assert_eq!(m.length(), 2);
    let mut buf: &[u8] = &body;
    assert_eq!(
        EthStatusMessage::decode(EthMessageID::NewBlock, &mut buf),
        Err(DecodeError::InvalidMessageId)
    );
}

#[test]
fn broadcast_message_is_prefixed_by_its_id() {
    let m = EthBroadcastMessage::Transactions(vec![0xc2, 0x01, 0x02]);
    assert_eq!(m.message_id(), EthMessageID::Transactions);
    let p = ProtocolBroadcastMessage::from(m.clone());
    assert_eq!(p.message_type, EthMessageID::Transactions);
    let mut out = vec![];
    p.encode(&mut out);
    assert_eq!(out, vec![0x02, 0xc2, 0x01, 0x02]);
    assert_eq!(p.length(), 4);
    let n = ProtocolBroadcastMessage::from(EthBroadcastMessage::NewBlock(vec![]));
    assert_eq!(n.message_type, EthMessageID::NewBlock);
    assert_eq!(n.length(), 1);
}

#[test]
fn request_pair_decode() {
    let raw_pair = &hex("c5820539c105")[..];
    let expected = RequestPair { request_id: 1337, message: vec![5u8] };
    let got = RequestPair::<Vec<u8>>::decode(&mut &*raw_pair).unwrap();
    assert_eq!(expected.length(), raw_pair.len());
    assert_eq!(expected, got);
}

#[test]
fn request_pair_decode_leaves_the_rest() {
    let raw = hex("c5820539c105ff01");
    let mut buf: &[u8] = &raw;
    let got = RequestPair::<Vec<u8>>::decode(&mut buf).unwrap();
    assert_eq!(got, RequestPair { request_id: 1337, message: vec![5u8] });
    assert_eq!(buf, &[0xff, 0x01][..]);
}

#[test]
fn request_pair_round_trips_long_payloads() {
    let pair = RequestPair { request_id: u64::MAX, message: (0u8..=255).collect::<Vec<u8>>() };
    let mut raw = vec![];
    pair.encode(&mut raw);
    let mut buf: &[u8] = &raw;
    assert_eq!(RequestPair::<Vec<u8>>::decode(&mut buf), Ok(pair));
    assert!(buf.is_empty());
}

#[test]
fn request_pair_decode_errors() {
    let cases: Vec<(&str, DecodeError)> = vec![
        ("", DecodeError::InputTooShort),
        ("85820539c105", DecodeError::UnexpectedString),
        ("c6820539c105", DecodeError::InputTooShort),
        ("c583000539c1", DecodeError::LeadingZero),
        ("c4c105c105", DecodeError::UnexpectedList),
        ("c3810505", DecodeError::NonCanonicalSingleByte),
        ("c300c105", DecodeError::LeadingZero),
        ("c5820539c205", DecodeError::ListLengthMismatch),
        ("c3820105", DecodeError::InputTooShort),
        ("f800", DecodeError::LeadingZero),
        ("f80501", DecodeError::NonCanonicalSize),
        ("cb8901020304050607080901", DecodeError::Overflow),
    ];
    for (raw, err) in cases {
        let bytes = hex(raw);
        let mut buf: &[u8] = &bytes;
        assert_eq!(RequestPair::<Vec<u8>>::decode(&mut buf), Err(err), "input {raw}");
        assert_eq!(buf, &bytes[..]);
    }
}
