//! The L2 provider: payload decoding, the L1-attributes calldata, and
//! the derived block info and system config.

use alloy_consensus::{Block, BlockBody, Header, Sealable};
use alloy_primitives::{Address, B256, Bytes, TxKind, U256};
use std::collections::VecDeque;
use fphost::driver::{DerivationPipeline, StepResult};
use fphost::l2::{parse_l1_info_calldata, to_l2_block_info, to_system_config, L2ChainProvider};
use fphost::scripted::ScriptedStage;
use fphost::types::{
    AttributesWithParent, BlockInfo, L2BlockInfo, PayloadInfo, RollupConfig, SystemConfig,
};
use op_alloy_consensus::{OpTxEnvelope, TxDeposit};

fn sample_calldata() -> Vec<u8> {
    let mut data = vec![0x01u8, 0x5d, 0x8e, 0xb9];
    let mut word = |tail: &[u8]| {
        let mut w = vec![0u8; 32 - tail.len()];
        w.extend_from_slice(tail);
        data.extend_from_slice(&w);
    };
    word(&77u64.to_be_bytes());  // L1 origin number
    word(&1_700_000_500u64.to_be_bytes());  // L1 origin timestamp
    word(&[0u8; 32]);  // basefee, unread
    word(&[0xaa; 32]);  // L1 origin hash
    word(&3u64.to_be_bytes());  // sequence number
    word(&[0xbb; 32]);  // batcher hash
    word(&[0xcc; 32]);  // overhead
    word(&[0xdd; 32]);  // scalar
    data
}

fn sample_rollup_config() -> RollupConfig {
    RollupConfig {
        genesis_l1_number: 10,
        genesis_l1_hash: vec![0x10; 32],
        genesis_l2_number: 100,
        genesis_l2_hash: vec![0x20; 32],
        block_time: 2,
        genesis_system_config: SystemConfig {
            batcher_address: vec![0x01; 20],
            overhead: vec![0; 32],
            scalar: vec![0; 32],
            gas_limit: 25_000_000,
        },
    }
}

#[test]
fn l1_info_calldata_parses() {
    let info = parse_l1_info_calldata(&sample_calldata()).unwrap();
    assert_eq!(info.number, 77);
    assert_eq!(info.timestamp, 1_700_000_500);
    assert_eq!(info.block_hash, vec![0xaa; 32]);
    assert_eq!(info.seq_number, 3);
    assert_eq!(info.batcher_hash, vec![0xbb; 32]);
}

#[test]
fn l1_info_calldata_rejects() {
    assert!(parse_l1_info_calldata(&vec![0u8; 259]).is_err());
    let mut bad_selector = sample_calldata();
    bad_selector[0] = 0xff;
    assert!(parse_l1_info_calldata(&bad_selector).is_err());
    let mut bad_pad = sample_calldata();
    bad_pad[5] = 1;
    assert!(parse_l1_info_calldata(&bad_pad).is_err());
}

fn sample_l2_block(number: u64, deposit_input: Option<Vec<u8>>) -> (Header, Vec<u8>) {
    let header = Header {
        number,
        timestamp: 1_700_000_600,
        parent_hash: B256::repeat_byte(0x42),
        gas_limit: 26_000_000,
        ..Default::default()
    };
    let transactions = match deposit_input {
        Some(input) => {
            let deposit = TxDeposit {
                source_hash: B256::repeat_byte(0x01),
                from: Address::repeat_byte(0x02),
                to: TxKind::Call(Address::repeat_byte(0x03)),
                mint: 0,
                value: U256::ZERO,
                gas_limit: 1_000_000,
                is_system_transaction: true,
                input: Bytes::from(input),
            };
            vec![OpTxEnvelope::Deposit(deposit.seal_slow())]
        },
        None => Vec::new(),
    };
    let block: Block<OpTxEnvelope> = Block::new(
        header.clone(),
        BlockBody { transactions, ommers: Vec::new(), withdrawals: None },
    );
    (header, alloy_rlp::encode(&block))
}

#[test]
fn payload_decodes_with_deposit_input() {
    let (header, raw) = sample_l2_block(101, Some(sample_calldata()));
    let mut provider = L2ChainProvider::new(sample_rollup_config());
    assert!(provider.cached_payload_by_number(101).is_none());
    let p = provider.admit_raw_payload(101, &raw).unwrap();
    assert_eq!(p.number, 101);
    assert_eq!(p.hash, header.hash_slow().to_vec());
    assert_eq!(p.gas_limit, 26_000_000);
    assert_eq!(p.deposit_input, Some(sample_calldata()));
    assert!(provider.cached_payload_by_number(101).is_some());
}

#[test]
fn l2_block_info_from_deposit() {
    let (_, raw) = sample_l2_block(101, Some(sample_calldata()));
    let mut provider = L2ChainProvider::new(sample_rollup_config());
    let p = provider.admit_raw_payload(101, &raw).unwrap();
    let b = provider.admit_l2_block_info(101, &p).unwrap();
    assert_eq!(b.block_info.number, 101);
    assert_eq!(b.l1_origin_number, 77);
    assert_eq!(b.l1_origin_hash, vec![0xaa; 32]);
    assert_eq!(b.seq_number, 3);
    assert!(provider.cached_l2_block_info_by_number(101).is_some());
}

#[test]
fn l2_block_info_at_genesis() {
    let cfg = sample_rollup_config();
    let (_, raw) = sample_l2_block(100, None);
    let mut provider = L2ChainProvider::new(sample_rollup_config());
    let p = provider.admit_raw_payload(100, &raw).unwrap();
    let b = to_l2_block_info(&p, &cfg).unwrap();
    assert_eq!(b.l1_origin_number, 10);
    assert_eq!(b.l1_origin_hash, vec![0x10; 32]);
    assert_eq!(b.seq_number, 0);
}

#[test]
fn l2_block_info_needs_deposit_above_genesis() {
    let cfg = sample_rollup_config();
    let payload = PayloadInfo {
        hash: vec![0; 32],
        number: 101,
        parent_hash: vec![0; 32],
        timestamp: 0,
        gas_limit: 0,
        deposit_input: None,
    };
    assert!(to_l2_block_info(&payload, &cfg).is_err());
}

#[test]
fn system_config_from_deposit() {
    let (_, raw) = sample_l2_block(101, Some(sample_calldata()));
    let mut provider = L2ChainProvider::new(sample_rollup_config());
    let p = provider.admit_raw_payload(101, &raw).unwrap();
    let sc = provider.admit_system_config(101, &p).unwrap();
    // The batcher address is the 20-byte tail of the batcher-hash word.
    assert_eq!(sc.batcher_address, vec![0xbb; 20]);
    assert_eq!(sc.overhead, vec![0xcc; 32]);
    assert_eq!(sc.scalar, vec![0xdd; 32]);
    assert_eq!(sc.gas_limit, 26_000_000);
    assert!(provider.cached_system_config_by_number(101).is_some());
}

#[test]
fn driver_resets_through_l2_chain_provider() {
    // The end-to-end reset path: a real payload is admitted and its
    // system config derived; the driver's reset then consults this very
    // provider as its config source and restores the stage.
    let cfg = sample_rollup_config();
    let mut provider = L2ChainProvider::new(sample_rollup_config());
    let (_, raw) = sample_l2_block(101, Some(sample_calldata()));
    let p = provider.admit_raw_payload(101, &raw).unwrap();
    provider.admit_system_config(101, &p).unwrap();

    let attrs = AttributesWithParent {
        parent: L2BlockInfo {
            block_info: BlockInfo {
                hash: vec![9; 32],
                number: 101,
                parent_hash: vec![8; 32],
                timestamp: 5,
            },
            l1_origin_number: 77,
            l1_origin_hash: vec![0xaa; 32],
            seq_number: 3,
        },
        transactions: vec![],
        timestamp: 60,
    };
    let stage = ScriptedStage::new(VecDeque::from(vec![Ok(attrs)]));
    let mut driver = DerivationPipeline::new(stage, cfg, provider);

    let l2 = BlockInfo {
        hash: vec![7; 32],
        number: 101,
        parent_hash: vec![6; 32],
        timestamp: 4,
    };
    let l1 = BlockInfo {
        hash: vec![0xaa; 32],
        number: 77,
        parent_hash: vec![5; 32],
        timestamp: 3,
    };
    driver.reset(&l2, &l1).unwrap();
    assert_eq!(driver.origin().unwrap().number, 77);

    // An unknown height is a provider error.
    let l2_unknown = BlockInfo {
        hash: vec![7; 32],
        number: 102,
        parent_hash: vec![6; 32],
        timestamp: 4,
    };
    assert!(driver.reset(&l2_unknown, &l1).is_err());

    let cursor = driver.next();
    assert!(cursor.is_none());
    let parent = L2BlockInfo {
        block_info: BlockInfo {
            hash: vec![9; 32],
            number: 101,
            parent_hash: vec![8; 32],
            timestamp: 5,
        },
        l1_origin_number: 77,
        l1_origin_hash: vec![0xaa; 32],
        seq_number: 3,
    };
    assert_eq!(driver.step(&parent), StepResult::PreparedAttributes);
    assert_eq!(driver.next().unwrap().timestamp, 60);
}

#[test]
fn l2_quantity_responses() {
    let provider = L2ChainProvider::new(sample_rollup_config());
    assert_eq!(provider.chain_id(&b"0x1".to_vec()), Ok(1));
    assert_eq!(provider.latest_block_number(&b"0x64".to_vec()), Ok(100));
}

#[test]
fn system_config_at_genesis() {
    let cfg = sample_rollup_config();
    let (_, raw) = sample_l2_block(100, None);
    let mut provider = L2ChainProvider::new(sample_rollup_config());
    let p = provider.admit_raw_payload(100, &raw).unwrap();
    let sc = to_system_config(&p, &cfg).unwrap();
    assert_eq!(sc.batcher_address, vec![0x01; 20]);
    assert_eq!(sc.gas_limit, 25_000_000);
}
