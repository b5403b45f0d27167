//! Hint parsing, the fetcher, and the two server channels.

use fphost::errors::{HintError, OracleError};
use fphost::fetcher::Fetcher;
use fphost::hint::{parse_hint, HintType};
use fphost::kv::{KeyValueStore, MemKvStore};
use fphost::server::{lookup_preimage, process_hint_channel, serve_oracle_request};
use fphost::wire::{decode_oracle_response, encode_hint_frame, ACK_BYTE};
use sha2::Digest;

fn hex_of(bytes: &[u8]) -> String {
    let mut s = String::new();
    for b in bytes {
        s.push_str(&format!("{:02x}", b));
    }
    s
}

fn hint_line(keyword: &str, payload: &[u8]) -> Vec<u8> {
    format!("{} 0x{}", keyword, hex_of(payload)).into_bytes()
}

#[test]
fn parse_known_hints() {
    let h = parse_hint(&hint_line("l1-block-header", &[0xab; 32])).unwrap();
    assert_eq!(h.hint_type, HintType::L1BlockHeader);
    assert_eq!(h.payload, vec![0xab; 32]);
    let h = parse_hint(&hint_line("l1-blob", &[1; 56])).unwrap();
    assert_eq!(h.hint_type, HintType::L1Blob);
    let h = parse_hint(&hint_line("l1-precompile", &[2; 40])).unwrap();
    assert_eq!(h.hint_type, HintType::L1Precompile);
    let h = parse_hint(&hint_line("l2-state-node", &[3; 32])).unwrap();
    assert_eq!(h.hint_type, HintType::L2StateNode);
}

#[test]
fn parse_hint_errors() {
    assert!(matches!(
        parse_hint(&b"l1-block-header".to_vec()),
        Err(HintError::MissingSeparator)
    ));
    assert!(matches!(
        parse_hint(&hint_line("l1-bogus", &[0xab; 32])),
        Err(HintError::UnknownType)
    ));
    assert!(matches!(
        parse_hint(&b"l1-block-header 0xzz".to_vec()),
        Err(HintError::MalformedPayload)
    ));
    assert!(matches!(
        parse_hint(&b"l1-block-header abcd".to_vec()),
        Err(HintError::MalformedPayload)
    ));
    assert!(matches!(
        parse_hint(&hint_line("l1-block-header", &[0xab; 30])),
        Err(HintError::BadPayloadLength)
    ));
    assert!(matches!(
        parse_hint(&hint_line("l1-blob", &[0xab; 32])),
        Err(HintError::BadPayloadLength)
    ));
}

#[test]
fn hint_then_preimage_online() {
    // The online path: a header hint arrives, its frame is acked, the
    // promised bytes land in the store, and the oracle serves them back
    // under the keccak-committed key.
    let header_rlp: Vec<u8> = vec![0xf8, 0x01, 0x02, 0x03, 0x04, 0x05];
    let digest = alloy_primitives::keccak256(&header_rlp);
    let mut fetcher = Fetcher::new(MemKvStore::new());

    let frame = encode_hint_frame(&hint_line("l1-block-header", digest.as_slice()));
    let acks = process_hint_channel(&mut fetcher, &frame);
    assert_eq!(acks, vec![ACK_BYTE]);

    fetcher.prefetch_with(&header_rlp).unwrap();

    let mut key = digest.to_vec();
    key[0] = 1;
    let response = serve_oracle_request(&fetcher.kv, &key).unwrap();
    assert_eq!(decode_oracle_response(&response), Some(header_rlp));
}

#[test]
fn oracle_rejects_malformed_keys() {
    let kv = MemKvStore::new();
    assert!(matches!(
        lookup_preimage(&kv, &vec![1u8; 31]),
        Err(OracleError::Key(fphost::errors::KeyError::BadLength))
    ));
    let mut unknown_tag = vec![0x07u8; 32];
    unknown_tag[0] = 9;
    assert!(matches!(
        lookup_preimage(&kv, &unknown_tag),
        Err(OracleError::Key(fphost::errors::KeyError::UnknownTag))
    ));
}

#[test]
fn preimage_without_hint_offline() {
    // An offline host with an empty store: an arbitrary keccak key is
    // a failed read.
    let kv = MemKvStore::new();
    let mut key = vec![0x5eu8; 32];
    key[0] = 1;
    assert_eq!(
        lookup_preimage(&kv, &key),
        Err(OracleError::MissingPreimage)
    );
    assert!(serve_oracle_request(&kv, &key).is_err());
}

#[test]
fn prefetch_digest_mismatch_writes_nothing() {
    let data = vec![1u8, 2, 3];
    let wrong_hash = [0u8; 32];
    let mut fetcher = Fetcher::new(MemKvStore::new());
    fetcher.hint(&hint_line("l2-code", &wrong_hash)).unwrap();
    assert!(fetcher.prefetch_with(&data).is_err());
    let mut key = alloy_primitives::keccak256(&data).to_vec();
    key[0] = 1;
    assert_eq!(fetcher.kv.get(&key), None);
}

#[test]
fn prefetch_precompile_and_blob_schemes() {
    // A precompile result is stored under the keccak of the call; a
    // blob sidecar under the sha-256 of its own bytes.
    let call = vec![9u8; 40];
    let result = vec![7u8, 7, 7];
    let mut fetcher = Fetcher::new(MemKvStore::new());
    fetcher.hint(&hint_line("l1-precompile", &call)).unwrap();
    fetcher.prefetch_with(&result).unwrap();
    let mut pkey = alloy_primitives::keccak256(&call).to_vec();
    pkey[0] = 5;
    assert_eq!(fetcher.kv.get(&pkey), Some(result));

    let sidecar = vec![4u8; 100];
    let commitment_and_index = [2u8; 56];
    fetcher.hint(&hint_line("l1-blob", &commitment_and_index)).unwrap();
    fetcher.prefetch_with(&sidecar).unwrap();
    let mut skey = sha2::Sha256::digest(&sidecar).to_vec();
    skey[0] = 3;
    assert_eq!(fetcher.kv.get(&skey), Some(sidecar.clone()));
    // The per-element key commits to the commitment-and-index payload.
    let mut bkey = alloy_primitives::keccak256(commitment_and_index).to_vec();
    bkey[0] = 4;
    assert_eq!(fetcher.kv.get(&bkey), Some(sidecar));
}

#[test]
fn unknown_hint_is_recoverable() {
    // The channel acks and carries on; the store is untouched and the
    // fetcher holds no hint, so the next prefetch writes nothing.
    let mut fetcher = Fetcher::new(MemKvStore::new());
    let mut buf = encode_hint_frame(&b"no-such-hint 0x00".to_vec());
    buf.extend_from_slice(&encode_hint_frame(&hint_line("l2-output", &[6; 32])));
    let acks = process_hint_channel(&mut fetcher, &buf);
    assert_eq!(acks.len(), 2);
}
