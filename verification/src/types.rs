//! Plain data model of the chain values the host and the pipeline work on:
//! block summaries, decoded header and payload fields, rollup and system
//! configuration, and prepared L2 attributes.
//!
//! Hashes and other 32-byte words are byte vectors with a well-formedness
//! predicate; every type has a ghost view that contracts are stated over.

use vstd::prelude::*;
use crate::byteops::copy_bytes;

verus! {

/// Summary of one block: hash, height, parent hash and timestamp.
pub struct BlockInfo {
    pub hash: Vec<u8>,
    pub number: u64,
    pub parent_hash: Vec<u8>,
    pub timestamp: u64,
}

/// Ghost image of a [`BlockInfo`].
#[verifier::ext_equal]
pub ghost struct BlockInfoV {
    pub hash: Seq<u8>,
    pub number: u64,
    pub parent_hash: Seq<u8>,
    pub timestamp: u64,
}

impl View for BlockInfo {
    type V = BlockInfoV;

    open spec fn view(&self) -> BlockInfoV {
        BlockInfoV {
            hash: self.hash@,
            number: self.number,
            parent_hash: self.parent_hash@,
            timestamp: self.timestamp,
        }
    }
}

impl BlockInfo {
    /// Both hashes are 32 bytes long.
    pub open spec fn wf(&self) -> bool {
        self.hash@.len() == 32 && self.parent_hash@.len() == 32
    }

    /// Returns a fresh copy with the same view.
    pub fn dup(&self) -> (r: BlockInfo)
        ensures
            r@ == self@,
            r.wf() == self.wf(),
    {
        BlockInfo {
            hash: copy_bytes(&self.hash),
            number: self.number,
            parent_hash: copy_bytes(&self.parent_hash),
            timestamp: self.timestamp,
        }
    }
}

/// Summary of one L2 block: its block summary, the L1 origin it derives
/// from, and its sequence number within that origin's epoch.
pub struct L2BlockInfo {
    pub block_info: BlockInfo,
    pub l1_origin_number: u64,
    pub l1_origin_hash: Vec<u8>,
    pub seq_number: u64,
}

/// Ghost image of an [`L2BlockInfo`].
#[verifier::ext_equal]
pub ghost struct L2BlockInfoV {
    pub block_info: BlockInfoV,
    pub l1_origin_number: u64,
    pub l1_origin_hash: Seq<u8>,
    pub seq_number: u64,
}

impl View for L2BlockInfo {
    type V = L2BlockInfoV;

    open spec fn view(&self) -> L2BlockInfoV {
        L2BlockInfoV {
            block_info: self.block_info@,
            l1_origin_number: self.l1_origin_number,
            l1_origin_hash: self.l1_origin_hash@,
            seq_number: self.seq_number,
        }
    }
}

impl L2BlockInfo {
    /// The inner summary and the origin hash are well formed.
    pub open spec fn wf(&self) -> bool {
        self.block_info.wf() && self.l1_origin_hash@.len() == 32
    }

    /// Returns a fresh copy with the same view.
    pub fn dup(&self) -> (r: L2BlockInfo)
        ensures
            r@ == self@,
            r.wf() == self.wf(),
    {
        L2BlockInfo {
            block_info: self.block_info.dup(),
            l1_origin_number: self.l1_origin_number,
            l1_origin_hash: copy_bytes(&self.l1_origin_hash),
            seq_number: self.seq_number,
        }
    }
}

/// Per-block mutable rollup parameters derived from on-chain L1 events:
/// the batcher address, the two fee words and the block gas limit.
pub struct SystemConfig {
    pub batcher_address: Vec<u8>,
    pub overhead: Vec<u8>,
    pub scalar: Vec<u8>,
    pub gas_limit: u64,
}

/// Ghost image of a [`SystemConfig`].
#[verifier::ext_equal]
pub ghost struct SystemConfigV {
    pub batcher_address: Seq<u8>,
    pub overhead: Seq<u8>,
    pub scalar: Seq<u8>,
    pub gas_limit: u64,
}

impl View for SystemConfig {
    type V = SystemConfigV;

    open spec fn view(&self) -> SystemConfigV {
        SystemConfigV {
            batcher_address: self.batcher_address@,
            overhead: self.overhead@,
            scalar: self.scalar@,
            gas_limit: self.gas_limit,
        }
    }
}

impl SystemConfig {
    /// A 20-byte address and two 32-byte fee words.
    pub open spec fn wf(&self) -> bool {
        self.batcher_address@.len() == 20 && self.overhead@.len() == 32 && self.scalar@.len()
            == 32
    }

    /// Returns a fresh copy with the same view.
    pub fn dup(&self) -> (r: SystemConfig)
        ensures
            r@ == self@,
            r.wf() == self.wf(),
    {
        SystemConfig {
            batcher_address: copy_bytes(&self.batcher_address),
            overhead: copy_bytes(&self.overhead),
            scalar: copy_bytes(&self.scalar),
            gas_limit: self.gas_limit,
        }
    }
}

/// Chain-wide immutable rollup parameters: the L1 and L2 genesis anchors,
/// the L2 block time, and the system configuration at genesis.
pub struct RollupConfig {
    pub genesis_l1_number: u64,
    pub genesis_l1_hash: Vec<u8>,
    pub genesis_l2_number: u64,
    pub genesis_l2_hash: Vec<u8>,
    pub block_time: u64,
    pub genesis_system_config: SystemConfig,
}

/// Ghost image of a [`RollupConfig`].
#[verifier::ext_equal]
pub ghost struct RollupConfigV {
    pub genesis_l1_number: u64,
    pub genesis_l1_hash: Seq<u8>,
    pub genesis_l2_number: u64,
    pub genesis_l2_hash: Seq<u8>,
    pub block_time: u64,
    pub genesis_system_config: SystemConfigV,
}

impl View for RollupConfig {
    type V = RollupConfigV;

    open spec fn view(&self) -> RollupConfigV {
        RollupConfigV {
            genesis_l1_number: self.genesis_l1_number,
            genesis_l1_hash: self.genesis_l1_hash@,
            genesis_l2_number: self.genesis_l2_number,
            genesis_l2_hash: self.genesis_l2_hash@,
            block_time: self.block_time,
            genesis_system_config: self.genesis_system_config@,
        }
    }
}

impl RollupConfig {
    /// Genesis hashes are 32 bytes; the genesis system config is well formed.
    pub open spec fn wf(&self) -> bool {
        self.genesis_l1_hash@.len() == 32 && self.genesis_l2_hash@.len() == 32
            && self.genesis_system_config.wf()
    }
}

/// The fields of a decoded L1 block header that this crate reads.
pub struct HeaderInfo {
    pub hash: Vec<u8>,
    pub number: u64,
    pub parent_hash: Vec<u8>,
    pub timestamp: u64,
    pub gas_limit: u64,
}

/// Ghost image of a [`HeaderInfo`].
#[verifier::ext_equal]
pub ghost struct HeaderInfoV {
    pub hash: Seq<u8>,
    pub number: u64,
    pub parent_hash: Seq<u8>,
    pub timestamp: u64,
    pub gas_limit: u64,
}

impl View for HeaderInfo {
    type V = HeaderInfoV;

    open spec fn view(&self) -> HeaderInfoV {
        HeaderInfoV {
            hash: self.hash@,
            number: self.number,
            parent_hash: self.parent_hash@,
            timestamp: self.timestamp,
            gas_limit: self.gas_limit,
        }
    }
}

impl HeaderInfo {
    /// Both hashes are 32 bytes long.
    pub open spec fn wf(&self) -> bool {
        self.hash@.len() == 32 && self.parent_hash@.len() == 32
    }

    /// Returns a fresh copy with the same view.
    pub fn dup(&self) -> (r: HeaderInfo)
        ensures
            r@ == self@,
            r.wf() == self.wf(),
    {
        HeaderInfo {
            hash: copy_bytes(&self.hash),
            number: self.number,
            parent_hash: copy_bytes(&self.parent_hash),
            timestamp: self.timestamp,
            gas_limit: self.gas_limit,
        }
    }

    /// The block summary these header fields describe.
    pub fn to_block_info(&self) -> (r: BlockInfo)
        ensures
            r@.hash == self@.hash,
            r@.number == self@.number,
            r@.parent_hash == self@.parent_hash,
            r@.timestamp == self@.timestamp,
            r.wf() == self.wf(),
    {
        BlockInfo {
            hash: copy_bytes(&self.hash),
            number: self.number,
            parent_hash: copy_bytes(&self.parent_hash),
            timestamp: self.timestamp,
        }
    }
}

/// The result of executing one transaction, as carried in a receipt.
#[derive(PartialEq, Eq, Structural, Clone, Copy, Debug)]
pub struct ReceiptInfo {
    /// Whether the transaction executed successfully.
    pub success: bool,
    /// Cumulative gas used in the block up to and including this transaction.
    pub cumulative_gas_used: u64,
    /// How many logs the transaction emitted.
    pub log_count: u64,
}

/// The fields of a decoded L2 block that this crate reads: the header
/// summary plus, when the block opens with a deposit transaction, that
/// transaction's input bytes (the L1 attributes of the block's epoch).
pub struct PayloadInfo {
    pub hash: Vec<u8>,
    pub number: u64,
    pub parent_hash: Vec<u8>,
    pub timestamp: u64,
    pub gas_limit: u64,
    pub deposit_input: Option<Vec<u8>>,
}

/// Ghost image of a [`PayloadInfo`].
#[verifier::ext_equal]
pub ghost struct PayloadInfoV {
    pub hash: Seq<u8>,
    pub number: u64,
    pub parent_hash: Seq<u8>,
    pub timestamp: u64,
    pub gas_limit: u64,
    pub deposit_input: Option<Seq<u8>>,
}

impl View for PayloadInfo {
    type V = PayloadInfoV;

    open spec fn view(&self) -> PayloadInfoV {
        PayloadInfoV {
            hash: self.hash@,
            number: self.number,
            parent_hash: self.parent_hash@,
            timestamp: self.timestamp,
            gas_limit: self.gas_limit,
            deposit_input: match self.deposit_input {
                Some(ref v) => Some(v@),
                None => None,
            },
        }
    }
}

impl PayloadInfo {
    /// Both hashes are 32 bytes long.
    pub open spec fn wf(&self) -> bool {
        self.hash@.len() == 32 && self.parent_hash@.len() == 32
    }

    /// Returns a fresh copy with the same view.
    pub fn dup(&self) -> (r: PayloadInfo)
        ensures
            r@ == self@,
            r.wf() == self.wf(),
    {
        PayloadInfo {
            hash: copy_bytes(&self.hash),
            number: self.number,
            parent_hash: copy_bytes(&self.parent_hash),
            timestamp: self.timestamp,
            gas_limit: self.gas_limit,
            deposit_input: match self.deposit_input {
                Some(ref v) => Some(copy_bytes(v)),
                None => None,
            },
        }
    }
}

/// One prepared set of L2 block-building attributes, together with the
/// parent block they build on.
pub struct AttributesWithParent {
    pub parent: L2BlockInfo,
    pub transactions: Vec<Vec<u8>>,
    pub timestamp: u64,
}

/// Ghost image of an [`AttributesWithParent`].
#[verifier::ext_equal]
pub ghost struct AttributesWithParentV {
    pub parent: L2BlockInfoV,
    pub transactions: Seq<Seq<u8>>,
    pub timestamp: u64,
}

impl View for AttributesWithParent {
    type V = AttributesWithParentV;

    open spec fn view(&self) -> AttributesWithParentV {
        AttributesWithParentV {
            parent: self.parent@,
            transactions: self.transactions.deep_view(),
            timestamp: self.timestamp,
        }
    }
}

impl AttributesWithParent {
    /// Returns a fresh copy with the same view.
    pub fn dup(&self) -> (r: AttributesWithParent)
        ensures
            r@ == self@,
    {
        let mut txs: Vec<Vec<u8>> = Vec::new();
        let mut i: usize = 0;
        while i < self.transactions.len()
            invariant
                i <= self.transactions@.len(),
                txs@.len() == i,
                forall|j: int| 0 <= j < i ==> txs@[j]@ == self.transactions@[j]@,
            decreases self.transactions@.len() - i,
        {
            txs.push(copy_bytes(&self.transactions[i]));
            i = i + 1;
        }
        proof {
            assert(txs.deep_view() =~= self.transactions.deep_view());
        }
        AttributesWithParent { parent: self.parent.dup(), transactions: txs, timestamp: self.timestamp }
    }
}

} // verus!
