//! Preimage keys and the key-value stores.

use fphost::errors::KeyError;
use fphost::key::{KeyType, PreimageKey};
use fphost::kv::{KeyValueStore, MemKvStore, SplitKvStore};

fn key_bytes(tag: u8, fill: u8) -> Vec<u8> {
    let mut k = vec![fill; 32];
    k[0] = tag;
    k
}

#[test]
fn key_tags() {
    assert_eq!(KeyType::Keccak256.tag(), 1);
    assert_eq!(KeyType::Local.tag(), 2);
    assert_eq!(KeyType::Sha256.tag(), 3);
    assert_eq!(KeyType::Blob.tag(), 4);
    assert_eq!(KeyType::Precompile.tag(), 5);
    assert_eq!(KeyType::from_tag(1), Some(KeyType::Keccak256));
    assert_eq!(KeyType::from_tag(0), None);
    assert_eq!(KeyType::from_tag(6), None);
}

#[test]
fn key_codec_roundtrip() {
    let mut digest32 = vec![0u8; 32];
    for (i, b) in digest32.iter_mut().enumerate() {
        *b = i as u8;
    }
    let k = PreimageKey::from_digest(KeyType::Keccak256, &digest32);
    let enc = k.encode();
    assert_eq!(enc.len(), 32);
    assert_eq!(enc[0], 1);
    assert_eq!(&enc[1..], &digest32[1..]);
    let back = PreimageKey::decode(&enc).unwrap();
    assert_eq!(back.key_type, KeyType::Keccak256);
    assert_eq!(back.digest, digest32[1..].to_vec());
}

#[test]
fn key_decode_errors() {
    assert!(matches!(PreimageKey::decode(&vec![1u8; 31]), Err(KeyError::BadLength)));
    assert!(matches!(PreimageKey::decode(&vec![1u8; 33]), Err(KeyError::BadLength)));
    assert!(matches!(PreimageKey::decode(&key_bytes(9, 7)), Err(KeyError::UnknownTag)));
}

#[test]
fn mem_store_get_set() {
    let mut kv = MemKvStore::new();
    let k = key_bytes(1, 0xaa);
    assert_eq!(kv.get(&k), None);
    kv.set(&k, &vec![1, 2, 3]);
    assert_eq!(kv.get(&k), Some(vec![1, 2, 3]));
    kv.set(&k, &vec![4, 5]);
    assert_eq!(kv.get(&k), Some(vec![4, 5]));
    let k2 = key_bytes(1, 0xbb);
    kv.set(&k2, &vec![9]);
    assert_eq!(kv.get(&k), Some(vec![4, 5]));
    assert_eq!(kv.get(&k2), Some(vec![9]));
}

#[test]
fn split_store_routes_by_tag() {
    let mut split = SplitKvStore::new(MemKvStore::new(), MemKvStore::new());
    let local_key = key_bytes(2, 0x11);
    let remote_key = key_bytes(1, 0x11);
    split.set(&local_key, &vec![10]);
    split.set(&remote_key, &vec![20]);
    assert_eq!(split.get(&local_key), Some(vec![10]));
    assert_eq!(split.get(&remote_key), Some(vec![20]));
    // The two sides really are apart: the local side never saw the
    // remote key and vice versa.
    assert_eq!(split.local.get(&remote_key), None);
    assert_eq!(split.remote.get(&local_key), None);
    assert_eq!(split.local.get(&local_key), Some(vec![10]));
    assert_eq!(split.remote.get(&remote_key), Some(vec![20]));
}
