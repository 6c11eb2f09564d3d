use bytes::BytesMut;
use wsframe::frame::{Frame, ProtocolError};
use wsframe::proto::{CloseCode, OpCode};

#[test]
fn test_parse() {
    let mut buf = BytesMut::from(&[0b00000001u8, 0b00000001u8][..]);
    assert!(Frame::parse(&mut buf, false).unwrap().is_none());
    buf.extend(b"1");
    let frame = Frame::parse(&mut buf, false).unwrap().unwrap();
    let (finished, opcode, payload) = frame.unpack();
    assert!(!finished);
    assert_eq!(opcode, OpCode::Text);
    assert_eq!(payload, b"1".to_vec());
}

#[test]
fn test_parse_length0() {
    let mut buf = BytesMut::from(&[0b00000001u8, 0b00000000u8][..]);
    let frame = Frame::parse(&mut buf, false).unwrap().unwrap();
    let (finished, opcode, payload) = frame.unpack();
    assert!(!finished);
    assert_eq!(opcode, OpCode::Text);
    assert!(payload.is_empty());
}

#[test]
fn test_parse_length2() {
    let mut buf = BytesMut::from(&[0b00000001u8, 126u8][..]);
    assert!(Frame::parse(&mut buf, false).unwrap().is_none());
    buf.extend(&[0u8, 4u8][..]);
    buf.extend(b"1234");

    let frame = Frame::parse(&mut buf, false).unwrap().unwrap();
    let (finished, opcode, payload) = frame.unpack();
    assert!(!finished);
    assert_eq!(opcode, OpCode::Text);
    assert_eq!(payload, b"1234".to_vec());
}

#[test]
fn test_parse_length4() {
    let mut buf = BytesMut::from(&[0b00000001u8, 127u8][..]);
    assert!(Frame::parse(&mut buf, false).unwrap().is_none());
    buf.extend(&[0u8, 0u8, 0u8, 0u8, 0u8, 0u8, 0u8, 4u8][..]);
    buf.extend(b"1234");

    let frame = Frame::parse(&mut buf, false).unwrap().unwrap();
    let (finished, opcode, payload) = frame.unpack();
    assert!(!finished);
    assert_eq!(opcode, OpCode::Text);
    assert_eq!(payload, b"1234".to_vec());
}

#[test]
fn test_parse_frame_mask() {
    let mut buf = BytesMut::from(&[0b00000001u8, 0b10000001u8][..]);
    buf.extend(b"0001");
    buf.extend(b"1");

    assert!(Frame::parse(&mut buf, false).is_err());

    let frame = Frame::parse(&mut buf, true).unwrap().unwrap();
    let (finished, opcode, payload) = frame.unpack();
    assert!(!finished);
    assert_eq!(opcode, OpCode::Text);
    assert_eq!(payload, vec![1u8]);
}

#[test]
fn test_parse_frame_no_mask() {
    let mut buf = BytesMut::from(&[0b00000001u8, 0b00000001u8][..]);
    buf.extend(&[1u8]);

    assert!(Frame::parse(&mut buf, true).is_err());

    let frame = Frame::parse(&mut buf, false).unwrap().unwrap();
    let (finished, opcode, payload) = frame.unpack();
    assert!(!finished);
    assert_eq!(opcode, OpCode::Text);
    assert_eq!(payload, vec![1u8]);
}

#[test]
fn test_ping_frame() {
    let frame = Frame::message(Vec::from("data"), OpCode::Ping, true, false);

    let mut v = vec![137u8, 4u8];
    v.extend(b"data");
    assert_eq!(frame, v);
}

#[test]
fn test_pong_frame() {
    let frame = Frame::message(Vec::from("data"), OpCode::Pong, true, false);

    let mut v = vec![138u8, 4u8];
    v.extend(b"data");
    assert_eq!(frame, v);
}

#[test]
fn test_close_frame() {
    let frame = Frame::close(CloseCode::Normal, "data", false);

    let mut v = vec![136u8, 6u8, 3u8, 232u8];
    v.extend(b"data");
    assert_eq!(frame, v);
}

#[test]
fn mask_is_involutive() {
    let original: Vec<u8> = (0u8..=255).collect();
    let key = vec![0x37u8, 0xFA, 0x21, 0x3D];
    let mut data = original.clone();
    wsframe::mask::apply_mask(&mut data, &key);
    assert_ne!(data, original);
    wsframe::mask::apply_mask(&mut data, &key);
    assert_eq!(data, original);
}

#[test]
fn roundtrip_unmasked() {
    let payload: Vec<u8> = b"hello frame".to_vec();
    let wire = Frame::message(payload.clone(), OpCode::Binary, true, false);
    let mut buf = BytesMut::from(&wire[..]);
    let frame = Frame::parse(&mut buf, false).unwrap().unwrap();
    assert!(buf.is_empty());
    let (finished, opcode, got) = frame.unpack();
    assert!(finished);
    assert_eq!(opcode, OpCode::Binary);
    assert_eq!(got, payload);
}

#[test]
fn roundtrip_masked() {
    let payload: Vec<u8> = b"masked payload bytes".to_vec();
    let wire = Frame::message(payload.clone(), OpCode::Text, false, true);
    // The mask bit is set and the key plus payload follow the header.
    assert_eq!(wire[1], 0x80 | payload.len() as u8);
    assert_eq!(wire.len(), 2 + 4 + payload.len());
    let mut buf = BytesMut::from(&wire[..]);
    let frame = Frame::parse(&mut buf, true).unwrap().unwrap();
    let (finished, opcode, got) = frame.unpack();
    assert!(!finished);
    assert_eq!(opcode, OpCode::Text);
    assert_eq!(got, payload);
}

#[test]
fn mask_mismatch_errors_are_distinct() {
    let mut unmasked = BytesMut::from(&[0x81u8, 0x01, 0x31][..]);
    let err = Frame::parse(&mut unmasked, true).unwrap_err();
    assert_eq!(err, ProtocolError::UnmaskedFromClient);
    // The buffer is left as given.
    assert_eq!(&unmasked[..], &[0x81u8, 0x01, 0x31][..]);

    let mut masked = BytesMut::from(&[0x81u8, 0x81, 1, 2, 3, 4, 0x30][..]);
    let err = Frame::parse(&mut masked, false).unwrap_err();
    assert_eq!(err, ProtocolError::MaskedFromServer);
    assert_eq!(masked.len(), 7);
}

#[test]
fn invalid_opcode_is_fatal() {
    let mut buf = BytesMut::from(&[0x83u8, 0x01, 0x31][..]);
    let err = Frame::parse(&mut buf, false).unwrap_err();
    assert_eq!(err, ProtocolError::InvalidOpcode(3));
}

#[test]
fn oversized_ping_is_rejected() {
    let wire = Frame::message(vec![0u8; 130], OpCode::Ping, true, false);
    let mut buf = BytesMut::from(&wire[..]);
    let err = Frame::parse(&mut buf, false).unwrap_err();
    assert_eq!(err, ProtocolError::OversizedControlFrame(OpCode::Ping, 130));
}

#[test]
fn oversized_close_is_normalized() {
    let wire = Frame::message(vec![0u8; 130], OpCode::Close, true, false);
    let mut buf = BytesMut::from(&wire[..]);
    let frame = Frame::parse(&mut buf, false).unwrap().unwrap();
    // The whole oversized frame is consumed and replaced by the
    // canonical close frame.
    assert!(buf.is_empty());
    let (finished, opcode, payload) = frame.unpack();
    assert!(finished);
    assert_eq!(opcode, OpCode::Close);
    assert!(payload.is_empty());
}

#[test]
fn partial_mask_key_needs_more_data() {
    let mut buf = BytesMut::from(&[0x81u8, 0x81, 1, 2][..]);
    assert!(Frame::parse(&mut buf, true).unwrap().is_none());
    assert_eq!(buf.len(), 4);
}

#[test]
fn close_with_empty_code_has_no_payload() {
    let frame = Frame::close(CloseCode::Empty, "ignored", false);
    assert_eq!(frame, vec![136u8, 0u8]);
}

#[test]
fn sixteen_bit_length_is_big_endian() {
    let wire = Frame::message(vec![b'x'; 300], OpCode::Text, false, false);
    assert_eq!(&wire[..4], &[1u8, 126, 1, 44]);
    assert_eq!(wire.len(), 4 + 300);
}

#[test]
fn sixtyfour_bit_length_is_big_endian() {
    let wire = Frame::message(vec![0xABu8; 70000], OpCode::Binary, true, false);
    assert_eq!(&wire[..10], &[130u8, 127, 0, 0, 0, 0, 0, 1, 0x11, 0x70]);
    assert_eq!(wire.len(), 10 + 70000);
}

#[test]
fn reserved_bits_pass_through() {
    let mut buf = BytesMut::from(&[0x71u8, 0x01, 0x31][..]);
    let frame = Frame::parse(&mut buf, false).unwrap().unwrap();
    assert!(!frame.finished());
    assert!(frame.rsv1());
    assert!(frame.rsv2());
    assert!(frame.rsv3());
    assert_eq!(frame.opcode(), OpCode::Text);
    assert_eq!(frame.payload().as_slice(), &[0x31u8][..]);
}

#[test]
fn trailing_bytes_stay_in_the_buffer() {
    let mut wire = Frame::message(b"first".to_vec(), OpCode::Text, true, false);
    wire.extend(Frame::message(b"second".to_vec(), OpCode::Text, true, false));
    let mut buf = BytesMut::from(&wire[..]);

    let frame = Frame::parse(&mut buf, false).unwrap().unwrap();
    let (_, _, payload) = frame.unpack();
    assert_eq!(payload, b"first".to_vec());
    assert_eq!(buf.len(), 8);

    let frame = Frame::parse(&mut buf, false).unwrap().unwrap();
    let (_, _, payload) = frame.unpack();
    assert_eq!(payload, b"second".to_vec());
    assert!(buf.is_empty());
}

#[test]
fn close_codes_have_their_standard_numbers() {
    assert_eq!(CloseCode::Normal.as_u16(), 1000);
    assert_eq!(CloseCode::Away.as_u16(), 1001);
    assert_eq!(CloseCode::Protocol.as_u16(), 1002);
    assert_eq!(CloseCode::Error.as_u16(), 1011);
    assert_eq!(CloseCode::Other(4321).as_u16(), 4321);
}

#[test]
fn opcodes_roundtrip_through_their_numbers() {
    let codes = [
        OpCode::Continuation,
        OpCode::Text,
        OpCode::Binary,
        OpCode::Close,
        OpCode::Ping,
        OpCode::Pong,
    ];
    for code in codes {
        assert_eq!(OpCode::from_u8(code.as_u8()), code);
    }
    assert_eq!(OpCode::from_u8(3), OpCode::Bad);
    assert_eq!(OpCode::from_u8(15), OpCode::Bad);
}
