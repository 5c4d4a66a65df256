use bytes::BytesMut;
use supervisor::codec::{decode_frame, encode_frame, CodecError, TransportCodec};
use supervisor::process::ProcessMessage;
use supervisor::protocol::{WorkerCommand, WorkerMessage};

fn framed(payload: &[u8]) -> BytesMut {
    let mut b = BytesMut::new();
    encode_frame(payload, &mut b);
    b
}

#[test]
fn frame_round_trip_small() {
    let mut b = framed(b"hello");
    assert_eq!(&b[..], &[0u8, 5, b'h', b'e', b'l', b'l', b'o'][..]);
    let p = decode_frame(&mut b).unwrap();
    assert_eq!(&p[..], b"hello");
    assert_eq!(b.len(), 0);
}

#[test]
fn frame_empty_payload() {
    let mut b = framed(b"");
    assert_eq!(&b[..], &[0u8, 0][..]);
    let p = decode_frame(&mut b).unwrap();
    assert_eq!(p.len(), 0);
    assert_eq!(b.len(), 0);
}

#[test]
fn frame_max_payload() {
    let payload: Vec<u8> = (0..65535u32).map(|i| (i % 251) as u8).collect();
    let mut b = framed(&payload);
    assert_eq!(b.len(), 65537);
    assert_eq!(b[0], 0xff);
    assert_eq!(b[1], 0xff);
    let p = decode_frame(&mut b).unwrap();
    assert_eq!(&p[..], &payload[..]);
    assert_eq!(b.len(), 0);
}

#[test]
fn frame_length_is_big_endian() {
    let payload = vec![7u8; 258];
    let b = framed(&payload);
    assert_eq!(b[0], 1);
    assert_eq!(b[1], 2);
}

#[test]
fn decode_one_byte_retains() {
    let mut codec = TransportCodec;
    let mut b = BytesMut::from(&[0x00u8][..]);
    let r = codec.decode(&mut b);
    assert!(matches!(r, Ok(None)));
    assert_eq!(&b[..], &[0x00u8][..]);
}

#[test]
fn decode_partial_frame_retains() {
    let mut codec = TransportCodec;
    let bytes = [0x00u8, 0x05, b'a', b'b'];
    let mut b = BytesMut::from(&bytes[..]);
    let r = codec.decode(&mut b);
    assert!(matches!(r, Ok(None)));
    assert_eq!(&b[..], &bytes[..]);
}

#[test]
fn frames_in_order_across_chunks() {
    let payloads: Vec<Vec<u8>> = vec![b"one".to_vec(), b"".to_vec(), b"three!".to_vec()];
    let mut stream = BytesMut::new();
    for p in &payloads {
        encode_frame(p, &mut stream);
    }
    let all = stream.to_vec();
    let mut buf = BytesMut::new();
    let mut out: Vec<Vec<u8>> = Vec::new();
    for chunk in all.chunks(3) {
        buf.extend_from_slice(chunk);
        while let Some(p) = decode_frame(&mut buf) {
            out.push(p.to_vec());
        }
    }
    assert_eq!(out, payloads);
    assert_eq!(buf.len(), 0);
}

#[test]
fn decode_loaded_message() {
    let mut codec = TransportCodec;
    let mut b = framed(br#"{"loaded":null}"#);
    b.extend_from_slice(&[0u8]);
    let r = codec.decode(&mut b);
    assert!(matches!(r, Ok(Some(ProcessMessage::Message(WorkerMessage::Loaded)))));
    assert_eq!(&b[..], &[0u8][..]);
}

#[test]
fn decode_cfgerror_message() {
    let mut codec = TransportCodec;
    let mut b = framed(br#"{"cfgerror":"no \"port\""}"#);
    match codec.decode(&mut b) {
        Ok(Some(ProcessMessage::Message(WorkerMessage::CfgError(m)))) => assert_eq!(m, "no \"port\""),
        other => panic!("unexpected {:?}", other),
    }
}

#[test]
fn decode_malformed_is_error_and_consumes_frame() {
    let mut codec = TransportCodec;
    let mut b = framed(br#"{"loaded":nul}"#);
    let r = codec.decode(&mut b);
    assert!(matches!(r, Err(CodecError::InvalidMessage)));
    assert_eq!(b.len(), 0);
}

#[test]
fn encode_stop_command() {
    let mut codec = TransportCodec;
    let mut b = BytesMut::new();
    assert!(codec.encode(WorkerCommand::Stop, &mut b).is_ok());
    let mut expected = vec![0u8, 13];
    expected.extend_from_slice(br#"{"stop":null}"#);
    assert_eq!(&b[..], &expected[..]);
}

#[test]
fn decode_reads_big_endian_length() {
    let mut b = BytesMut::from(&[1u8, 2][..]);
    b.extend_from_slice(&vec![9u8; 258]);
    b.extend_from_slice(&[0xaa]);
    let p = decode_frame(&mut b).unwrap();
    assert_eq!(p.len(), 258);
    assert_eq!(&b[..], &[0xaau8][..]);
}

#[test]
fn decode_message_with_whitespace() {
    let mut codec = TransportCodec;
    let mut b = framed(br#"{"hb": null}"#);
    let r = codec.decode(&mut b);
    assert!(matches!(r, Ok(Some(ProcessMessage::Message(WorkerMessage::Hb)))));
    assert_eq!(b.len(), 0);
}
