//! The derivation pipeline driver over a scripted stage stack.

use std::collections::VecDeque;
use fphost::driver::{DerivationPipeline, DerivationStage, StepResult};
use fphost::errors::{ResetError, StageError};
use fphost::scripted::{MapConfigSource, ScriptedStage};
use fphost::types::{
    AttributesWithParent, BlockInfo, L2BlockInfo, RollupConfig, SystemConfig,
};

fn block_info(number: u64, fill: u8) -> BlockInfo {
    BlockInfo {
        hash: vec![fill; 32],
        number,
        parent_hash: vec![fill.wrapping_add(1); 32],
        timestamp: 1_000 + number,
    }
}

fn l2_block_info(number: u64, fill: u8) -> L2BlockInfo {
    L2BlockInfo {
        block_info: block_info(number, fill),
        l1_origin_number: number / 2,
        l1_origin_hash: vec![fill.wrapping_add(2); 32],
        seq_number: number % 2,
    }
}

fn attributes(tag: u8) -> AttributesWithParent {
    AttributesWithParent {
        parent: l2_block_info(50, tag),
        transactions: vec![vec![tag, tag, tag]],
        timestamp: 2_000 + tag as u64,
    }
}

fn rollup_config() -> RollupConfig {
    RollupConfig {
        genesis_l1_number: 1,
        genesis_l1_hash: vec![0x01; 32],
        genesis_l2_number: 2,
        genesis_l2_hash: vec![0x02; 32],
        block_time: 2,
        genesis_system_config: system_config(9),
    }
}

fn system_config(gas: u64) -> SystemConfig {
    SystemConfig {
        batcher_address: vec![0xab; 20],
        overhead: vec![0; 32],
        scalar: vec![0; 32],
        gas_limit: gas,
    }
}

fn driver_with_script(
    script: Vec<Result<AttributesWithParent, StageError>>,
) -> DerivationPipeline<ScriptedStage, MapConfigSource> {
    let stage = ScriptedStage::new(VecDeque::from(script));
    let cfg = rollup_config();
    let source = MapConfigSource::new(&cfg);
    DerivationPipeline::new(stage, cfg, source)
}

#[test]
fn step_eof_then_attributes() {
    // The stage drains once, so the first step advances the origin; the
    // second yields the exact attribute set.
    let mut driver = driver_with_script(vec![Err(StageError::Eof), Ok(attributes(5))]);
    let cursor = l2_block_info(60, 3);
    assert_eq!(driver.step(&cursor), StepResult::AdvancedOrigin);
    assert!(driver.peek().is_none());
    assert_eq!(driver.step(&cursor), StepResult::PreparedAttributes);
    let got = driver.next().expect("one prepared set");
    assert_eq!(got.timestamp, 2_005);
    assert_eq!(got.transactions, vec![vec![5, 5, 5]]);
    assert_eq!(got.parent.block_info.number, 50);
    assert!(driver.next().is_none());
}

#[test]
fn queue_is_fifo_and_counts_one_per_step() {
    let mut driver = driver_with_script(vec![Ok(attributes(1)), Ok(attributes(2))]);
    let cursor = l2_block_info(60, 3);
    assert_eq!(driver.step(&cursor), StepResult::PreparedAttributes);
    assert_eq!(driver.peek().unwrap().timestamp, 2_001);
    assert_eq!(driver.step(&cursor), StepResult::PreparedAttributes);
    // Still the first set at the front: nothing was reordered.
    assert_eq!(driver.peek().unwrap().timestamp, 2_001);
    assert_eq!(driver.next().unwrap().timestamp, 2_001);
    assert_eq!(driver.next().unwrap().timestamp, 2_002);
    assert!(driver.next().is_none());
}

#[test]
fn step_failure_is_surfaced() {
    let mut driver = driver_with_script(vec![Err(StageError::Fatal), Ok(attributes(7))]);
    let cursor = l2_block_info(60, 3);
    assert_eq!(driver.step(&cursor), StepResult::StepFailed(StageError::Fatal));
    assert!(driver.peek().is_none());
    let mut driver = driver_with_script(vec![Err(StageError::Temporary)]);
    assert_eq!(driver.step(&cursor), StepResult::StepFailed(StageError::Temporary));
}

#[test]
fn reset_stage_fault_is_surfaced() {
    let mut driver = driver_with_script(vec![]);
    driver.attributes.reset_fault = Some(StageError::Fatal);
    driver.l2_chain_provider.insert(60, system_config(777));
    let l2 = block_info(60, 4);
    let l1 = block_info(30, 8);
    match driver.reset(&l2, &l1) {
        Err(ResetError::Stage(StageError::Fatal)) => {},
        other => panic!("expected a stage error, got {:?}", other),
    }
    // An EOF during reset is benign: the origin is restored all the same.
    driver.attributes.reset_fault = Some(StageError::Eof);
    driver.reset(&l2, &l1).unwrap();
    assert_eq!(driver.origin().unwrap().number, 30);
}

#[test]
fn reset_consults_provider_and_restores_origin() {
    // After a fatal step, a reset fetches the config at the L2 height
    // and restores the stage at the L1 origin; stepping then succeeds.
    let mut driver = driver_with_script(vec![Err(StageError::Fatal), Ok(attributes(7))]);
    let cursor = l2_block_info(60, 3);
    assert_eq!(driver.step(&cursor), StepResult::StepFailed(StageError::Fatal));

    driver.l2_chain_provider.insert(60, system_config(777));
    let l2 = block_info(60, 4);
    let l1 = block_info(30, 8);
    driver.reset(&l2, &l1).unwrap();
    let origin = driver.origin().expect("origin set by reset");
    assert_eq!(origin.number, 30);
    assert_eq!(origin.hash, vec![8; 32]);

    assert_eq!(driver.step(&cursor), StepResult::PreparedAttributes);
    assert_eq!(driver.next().unwrap().timestamp, 2_007);
}

#[test]
fn reset_unknown_height_fails() {
    let mut driver = driver_with_script(vec![]);
    let l2 = block_info(61, 4);
    let l1 = block_info(30, 8);
    match driver.reset(&l2, &l1) {
        Err(ResetError::Provider(_)) => {},
        other => panic!("expected a provider error, got {:?}", other),
    }
    assert!(driver.origin().is_none());
}

#[test]
fn reset_twice_matches_once() {
    // Idempotence, observed: a second identical reset changes nothing
    // the driver exposes.
    let mut driver = driver_with_script(vec![Ok(attributes(9))]);
    driver.l2_chain_provider.insert(60, system_config(777));
    let l2 = block_info(60, 4);
    let l1 = block_info(30, 8);
    driver.reset(&l2, &l1).unwrap();
    let origin_once = driver.origin().unwrap();
    driver.reset(&l2, &l1).unwrap();
    let origin_twice = driver.origin().unwrap();
    assert_eq!(origin_once.hash, origin_twice.hash);
    assert_eq!(origin_once.number, origin_twice.number);
    let cursor = l2_block_info(60, 3);
    assert_eq!(driver.step(&cursor), StepResult::PreparedAttributes);
    assert_eq!(driver.next().unwrap().timestamp, 2_009);
}

#[test]
fn scripted_stage_origin_roundtrip() {
    let mut stage = ScriptedStage::new(VecDeque::new());
    assert!(stage.origin().is_none());
    stage.reset(&block_info(5, 1), &system_config(1)).unwrap();
    assert_eq!(stage.origin().unwrap().number, 5);
    assert_eq!(stage.advance_origin(), Ok(()));
}
