//! The cached L1 chain provider against real RLP encodings.

use alloy_consensus::{Block, BlockBody, Eip658Value, Header, Receipt, ReceiptWithBloom};
use alloy_primitives::{Bloom, B256};
use fphost::provider::{decode_receipt_envelope, parse_quantity, ChainProvider};

fn sample_header(number: u64) -> Header {
    Header {
        number,
        timestamp: 1_700_000_000 + number,
        parent_hash: B256::repeat_byte(0x11),
        gas_limit: 30_000_000,
        ..Default::default()
    }
}

#[test]
fn header_by_hash_decodes_and_caches() {
    let header = sample_header(7);
    let raw = alloy_rlp::encode(&header);
    let hash = header.hash_slow().to_vec();

    let mut provider = ChainProvider::new();
    // First call: a miss, so the raw response is fetched and admitted.
    assert!(provider.cached_header_by_hash(&hash).is_none());
    let mut fetches: usize = 0;
    let h = match provider.cached_header_by_hash(&hash) {
        Some(h) => h.dup(),
        None => {
            fetches += 1;
            provider.admit_raw_header(&hash, &raw).unwrap()
        },
    };
    assert_eq!(h.number, 7);
    assert_eq!(h.parent_hash, B256::repeat_byte(0x11).to_vec());
    assert_eq!(h.timestamp, 1_700_000_007);
    assert_eq!(h.hash, header.hash_slow().to_vec());
    // Second call: served from the cache, no fetch.
    let again = provider.cached_header_by_hash(&hash).expect("cached");
    assert_eq!(again.number, 7);
    assert_eq!(fetches, 1);
}

#[test]
fn header_decode_failure_is_reported() {
    let mut provider = ChainProvider::new();
    let hash = vec![0x22u8; 32];
    assert!(provider.admit_raw_header(&hash, &vec![0xde, 0xad]).is_err());
    assert!(provider.cached_header_by_hash(&hash).is_none());
}

#[test]
fn block_info_by_number_uses_requested_number() {
    let header = sample_header(42);
    let raw = alloy_rlp::encode(&header);
    let mut provider = ChainProvider::new();
    assert!(provider.cached_block_info_by_number(42).is_none());
    let b = provider.admit_raw_header_by_number(42, &raw).unwrap();
    assert_eq!(b.number, 42);
    assert_eq!(b.hash, header.hash_slow().to_vec());
    assert_eq!(b.parent_hash, B256::repeat_byte(0x11).to_vec());
    assert!(provider.cached_block_info_by_number(42).is_some());
    assert!(provider.cached_block_info_by_number(43).is_none());
}

fn sample_receipt() -> ReceiptWithBloom {
    ReceiptWithBloom {
        receipt: Receipt {
            status: Eip658Value::Eip658(true),
            cumulative_gas_used: 21_000,
            logs: Vec::new(),
        },
        logs_bloom: Bloom::ZERO,
    }
}

#[test]
fn receipts_typed_envelope_decodes() {
    // An EIP-1559 (type 2) envelope: the tag byte is stripped before
    // the RLP decode.
    let rlp = alloy_rlp::encode(&sample_receipt());
    let mut typed = vec![0x02u8];
    typed.extend_from_slice(&rlp);

    let hash = vec![0x33u8; 32];
    let mut provider = ChainProvider::new();
    let rs = provider.admit_raw_receipts(&hash, &vec![typed]).unwrap();
    assert_eq!(rs.len(), 1);
    assert!(rs[0].success);
    assert_eq!(rs[0].cumulative_gas_used, 21_000);
    assert_eq!(rs[0].log_count, 0);
    assert_eq!(provider.cached_receipts_by_hash(&hash).unwrap().len(), 1);
}

#[test]
fn receipts_legacy_and_typed_agree() {
    let rlp = alloy_rlp::encode(&sample_receipt());
    let legacy = decode_receipt_envelope(&rlp).unwrap();
    let mut typed = vec![0x00u8];
    typed.extend_from_slice(&rlp);
    let tagged = decode_receipt_envelope(&typed).unwrap();
    assert_eq!(legacy, tagged);
}

#[test]
fn receipts_bad_envelope_fails() {
    let hash = vec![0x44u8; 32];
    let mut provider = ChainProvider::new();
    let good = alloy_rlp::encode(&sample_receipt());
    assert!(provider
        .admit_raw_receipts(&hash, &vec![good, vec![0x02, 0xff]])
        .is_err());
    assert!(provider.cached_receipts_by_hash(&hash).is_none());
}

#[test]
fn block_and_transactions_by_hash() {
    let header = sample_header(9);
    let block: Block<alloy_consensus::TxEnvelope> = Block::new(
        header.clone(),
        BlockBody { transactions: Vec::new(), ommers: Vec::new(), withdrawals: None },
    );
    let raw = alloy_rlp::encode(&block);
    let hash = header.hash_slow().to_vec();
    let mut provider = ChainProvider::new();
    let (info, txs) = provider.admit_raw_block(&hash, &raw).unwrap();
    assert_eq!(info.number, 9);
    assert_eq!(info.hash, header.hash_slow().to_vec());
    assert!(txs.is_empty());
    assert!(provider.cached_block_and_txs_by_hash(&hash).is_some());
}

#[test]
fn cache_retains_entries_under_the_bound() {
    // A cached summary survives fifteen further distinct admissions —
    // the bound's worth — and the sixteenth distinct newcomer evicts at
    // most one entry.
    let mut provider = ChainProvider::new();
    let raw0 = alloy_rlp::encode(&sample_header(0));
    provider.admit_raw_header_by_number(0, &raw0).unwrap();
    for n in 1..16u64 {
        let raw = alloy_rlp::encode(&sample_header(n));
        provider.admit_raw_header_by_number(n, &raw).unwrap();
        assert!(provider.cached_block_info_by_number(0).is_some());
    }
    // The cache is full now; one more distinct admission may drop one.
    let raw16 = alloy_rlp::encode(&sample_header(16));
    provider.admit_raw_header_by_number(16, &raw16).unwrap();
    assert!(provider.cached_block_info_by_number(16).is_some());
    // Re-admitting a held number never evicts anything.
    provider.admit_raw_header_by_number(16, &raw16).unwrap();
    assert!(provider.cached_block_info_by_number(16).is_some());
}

#[test]
fn caches_stay_bounded() {
    // Far more than the bound: every admission still lands, and the
    // most recent one is always served.
    let mut provider = ChainProvider::new();
    for n in 0..40u64 {
        let raw = alloy_rlp::encode(&sample_header(n));
        provider.admit_raw_header_by_number(n, &raw).unwrap();
        assert_eq!(provider.cached_block_info_by_number(n).unwrap().number, n);
    }
}

#[test]
fn quantity_parsing() {
    let provider = ChainProvider::new();
    assert_eq!(provider.chain_id(&b"0xa".to_vec()), Ok(10));
    assert_eq!(parse_quantity(&b"0x1".to_vec()), Ok(1));
    assert_eq!(parse_quantity(&b"0xa4b1".to_vec()), Ok(0xa4b1));
    assert_eq!(parse_quantity(&b"ff".to_vec()), Ok(255));
    assert!(parse_quantity(&b"0x".to_vec()).is_err());
    assert!(parse_quantity(&b"0xzz".to_vec()).is_err());
    assert!(parse_quantity(&b"0x10000000000000000".to_vec()).is_err());
}
