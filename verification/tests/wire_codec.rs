//! Wire framing: hint frames, acks, and oracle responses.

use fphost::byteops::{hex_decode_from, parse_hex_u64, read_be32, read_be64};
use fphost::wire::{
    decode_oracle_response, drain_hint_frames, encode_hint_frame, encode_oracle_response,
    ACK_BYTE,
};

fn frame(payload: &[u8]) -> Vec<u8> {
    encode_hint_frame(&payload.to_vec())
}

#[test]
fn hint_frame_layout() {
    let f = frame(b"abc");
    assert_eq!(f, vec![0, 0, 0, 3, b'a', b'b', b'c']);
    assert_eq!(read_be32(&f, 0), 3);
}

#[test]
fn drain_two_frames_acks_two() {
    let mut buf = frame(b"hello");
    buf.extend_from_slice(&frame(b"world!"));
    // A truncated third frame: promised 9 bytes, only 2 present.
    buf.extend_from_slice(&[0, 0, 0, 9, 1, 2]);
    let (frames, acks) = drain_hint_frames(&buf);
    assert_eq!(frames.len(), 2);
    assert_eq!(frames[0], b"hello".to_vec());
    assert_eq!(frames[1], b"world!".to_vec());
    assert_eq!(acks.len(), 2);
    assert!(acks.iter().all(|a| *a == ACK_BYTE));
}

#[test]
fn drain_empty_and_truncated() {
    let (frames, acks) = drain_hint_frames(&Vec::new());
    assert!(frames.is_empty());
    assert!(acks.is_empty());
    let (frames, acks) = drain_hint_frames(&vec![0, 0, 0]);
    assert!(frames.is_empty());
    assert!(acks.is_empty());
}

#[test]
fn oracle_response_roundtrip() {
    let value = vec![9u8, 8, 7, 6, 5];
    let enc = encode_oracle_response(&value);
    assert_eq!(enc.len(), 13);
    assert_eq!(read_be64(&enc, 0), 5);
    assert_eq!(decode_oracle_response(&enc), Some(value));
}

#[test]
fn oracle_response_truncated_is_none() {
    let value = vec![1u8, 2, 3];
    let mut enc = encode_oracle_response(&value);
    enc.pop();
    assert_eq!(decode_oracle_response(&enc), None);
    assert_eq!(decode_oracle_response(&vec![0, 0, 0]), None);
}

#[test]
fn hex_decoding() {
    let s = b"0aff10".to_vec();
    assert_eq!(hex_decode_from(&s, 0), Some(vec![0x0a, 0xff, 0x10]));
    assert_eq!(hex_decode_from(&b"abc".to_vec(), 0), None);
    assert_eq!(hex_decode_from(&b"zz".to_vec(), 0), None);
}

#[test]
fn hex_u64_parsing() {
    assert_eq!(parse_hex_u64(&b"10".to_vec(), 0), Some(16));
    assert_eq!(parse_hex_u64(&b"ff".to_vec(), 0), Some(255));
    assert_eq!(parse_hex_u64(&b"DEADbeef".to_vec(), 0), Some(0xdead_beef));
    assert_eq!(parse_hex_u64(&b"ffffffffffffffff".to_vec(), 0), Some(u64::MAX));
    // 17 digits: over the limit.
    assert_eq!(parse_hex_u64(&b"10000000000000000".to_vec(), 0), None);
    assert_eq!(parse_hex_u64(&b"".to_vec(), 0), None);
    assert_eq!(parse_hex_u64(&b"1g".to_vec(), 0), None);
}
