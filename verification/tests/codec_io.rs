//! Framing behaviour of the codec: incomplete frames, buffered extra
//! frames, invalid encodings, and the exact wire form of each response.

use bytes::BytesMut;
use key_value_store::DecodeError;
use key_value_store::KVResponse;
use key_value_store::LineCodec;

#[test]
fn incomplete_frame_consumes_nothing() {
    let mut codec = LineCodec;
    let mut buf = BytesMut::new();
    buf.extend_from_slice(b"set foo");
    assert_eq!(codec.decode(&mut buf), Ok(None));
    assert_eq!(&buf[..], b"set foo");
    assert_eq!(codec.decode(&mut buf), Ok(None));
    assert_eq!(&buf[..], b"set foo");
}

#[test]
fn two_frames_in_one_buffer() {
    let mut codec = LineCodec;
    let mut buf = BytesMut::new();
    buf.extend_from_slice(b"first\nsecond\n");
    let line = codec.decode(&mut buf).unwrap().unwrap();
    assert_eq!(line, "first");
    assert!(!buf.is_empty());
    assert_eq!(&buf[..], b"second\n");
    let line = codec.decode(&mut buf).unwrap().unwrap();
    assert_eq!(line, "second");
    assert!(buf.is_empty());
}

#[test]
fn invalid_utf8_is_a_fatal_framing_error() {
    let mut codec = LineCodec;
    let mut buf = BytesMut::new();
    buf.extend_from_slice(b"\xff\xfe\xfd\n");
    assert_eq!(codec.decode(&mut buf), Err(DecodeError::InvalidEncoding));
}

#[test]
fn invalid_bytes_without_delimiter_are_still_incomplete() {
    let mut codec = LineCodec;
    let mut buf = BytesMut::new();
    buf.extend_from_slice(b"\xff\xfe");
    assert_eq!(codec.decode(&mut buf), Ok(None));
    assert_eq!(&buf[..], b"\xff\xfe");
}

#[test]
fn frame_after_delimiter_stays_buffered() {
    let mut codec = LineCodec;
    let mut buf = BytesMut::new();
    buf.extend_from_slice(b"get a\nget b");
    let line = codec.decode(&mut buf).unwrap().unwrap();
    assert_eq!(line, "get a");
    assert_eq!(&buf[..], b"get b");
    assert_eq!(codec.decode(&mut buf), Ok(None));
}

#[test]
fn encode_appends_and_keeps_prior_bytes() {
    let mut codec = LineCodec;
    let mut out = BytesMut::new();
    out.extend_from_slice(b"x");
    codec.encode(KVResponse::Okay, &mut out);
    assert_eq!(&out[..], b"x+OK\r\n");
}

#[test]
fn encode_wire_forms() {
    let mut codec = LineCodec;
    let mut out = BytesMut::new();
    codec.encode(KVResponse::Okay, &mut out);
    codec.encode(KVResponse::Nil, &mut out);
    codec.encode(KVResponse::SimpleStr("bar".to_string()), &mut out);
    codec.encode(
        KVResponse::Error("ERR".to_string(), "unknown command".to_string()),
        &mut out,
    );
    assert_eq!(&out[..], b"+OK\r\n$-1\r\n+bar\r\n-ERR unknown command\r\n");
}

#[test]
fn encode_keeps_multibyte_values() {
    let mut codec = LineCodec;
    let mut out = BytesMut::new();
    codec.encode(KVResponse::SimpleStr("h\u{e9}llo".to_string()), &mut out);
    assert_eq!(&out[..], "+h\u{e9}llo\r\n".as_bytes());
}

#[test]
fn decode_keeps_multibyte_lines() {
    let mut codec = LineCodec;
    let mut buf = BytesMut::new();
    buf.extend_from_slice("set cl\u{e9} valeur\n".as_bytes());
    let line = codec.decode(&mut buf).unwrap().unwrap();
    assert_eq!(line, "set cl\u{e9} valeur");
}
