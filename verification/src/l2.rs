//! The L2 chain provider: raw L2 blocks are decoded once, and the block
//! summary, the derived L2 block info and the derived system config are
//! each remembered in a bounded cache keyed by block number.
//!
//! An L2 block's epoch data rides in its first transaction: a deposit
//! whose calldata is the L1-attributes call. Parsing that calldata, and
//! deriving [`L2BlockInfo`] and [`SystemConfig`] from it, is ordinary
//! verified logic here; only the RLP decode of the block is an outside
//! call.

use vstd::prelude::*;
use crate::byteops::{be64_val, copy_bytes, copy_range, read_be64};
use crate::errors::{DecodeError, ProviderError};
use crate::provider::{be64_bytes, cache_retains, cache_step, u64_key, BoundedCache};
use crate::types::{
    BlockInfo, L2BlockInfo, L2BlockInfoV, PayloadInfo, PayloadInfoV, RollupConfig, SystemConfig,
    SystemConfigV,
};

verus! {

/// What decoding a raw L2 block yields, if anything: the header summary
/// and, when the block opens with a deposit transaction, its input.
pub uninterp spec fn op_block_decode_of(raw: Seq<u8>) -> Option<PayloadInfoV>;

/// Relies on `op_alloy_consensus::OpBlock`'s `alloy_rlp::Decodable` impl
/// and `Header::hash_slow`: both are functions of the raw bytes alone.
#[verifier::external_body]
fn decode_op_block_raw(raw: &Vec<u8>) -> (r: Result<PayloadInfo, DecodeError>)
    ensures
        match r {
            Ok(p) => op_block_decode_of(raw@) == Some(p@) && p.wf(),
            Err(e) => op_block_decode_of(raw@) is None && e == DecodeError::Malformed,
        },
{
    let mut buf: &[u8] = raw.as_slice();
    match <op_alloy_consensus::OpBlock as alloy_rlp::Decodable>::decode(&mut buf) {
        Ok(b) => {
            let deposit_input = match b.body.transactions.first() {
                Some(op_alloy_consensus::OpTxEnvelope::Deposit(d)) => Some(d.input.to_vec()),
                _ => None,
            };
            let (hash, h) = (b.header.hash_slow().to_vec(), &b.header);
            let parent_hash = h.parent_hash.to_vec();
            Ok(PayloadInfo { hash, number: h.number, parent_hash, timestamp: h.timestamp, gas_limit: h.gas_limit, deposit_input })
        },
        Err(_) => Err(DecodeError::Malformed),
    }
}

/// The four selector bytes of the L1-attributes call.
pub open spec fn l1_info_selector() -> Seq<u8> {
    seq![0x01u8, 0x5du8, 0x8eu8, 0xb9u8]
}

/// The L1-attributes calldata is well formed: the selector, then eight
/// 32-byte words, with the three words read as 64-bit numbers zero-padded.
pub open spec fn l1_info_calldata_wf(s: Seq<u8>) -> bool {
    &&& s.len() == 260
    &&& s.subrange(0, 4) == l1_info_selector()
    &&& forall|i: int| 4 <= i < 28 ==> s[i] == 0
    &&& forall|i: int| 36 <= i < 60 ==> s[i] == 0
    &&& forall|i: int| 132 <= i < 156 ==> s[i] == 0
}

/// The epoch data carried by one L1-attributes call: the L1 origin's
/// number, timestamp and hash, the sequence number within the epoch, and
/// the system-config words.
pub struct L1Info {
    pub number: u64,
    pub timestamp: u64,
    pub block_hash: Vec<u8>,
    pub seq_number: u64,
    pub batcher_hash: Vec<u8>,
    pub overhead: Vec<u8>,
    pub scalar: Vec<u8>,
}

/// Ghost image of an [`L1Info`].
#[verifier::ext_equal]
pub ghost struct L1InfoV {
    pub number: u64,
    pub timestamp: u64,
    pub block_hash: Seq<u8>,
    pub seq_number: u64,
    pub batcher_hash: Seq<u8>,
    pub overhead: Seq<u8>,
    pub scalar: Seq<u8>,
}

impl View for L1Info {
    type V = L1InfoV;

    open spec fn view(&self) -> L1InfoV {
        L1InfoV {
            number: self.number,
            timestamp: self.timestamp,
            block_hash: self.block_hash@,
            seq_number: self.seq_number,
            batcher_hash: self.batcher_hash@,
            overhead: self.overhead@,
            scalar: self.scalar@,
        }
    }
}

/// What a well-formed L1-attributes calldata denotes.
pub open spec fn l1_info_of(s: Seq<u8>) -> L1InfoV
    recommends
        l1_info_calldata_wf(s),
{
    L1InfoV {
        number: be64_val(s.subrange(28, 36)) as u64,
        timestamp: be64_val(s.subrange(60, 68)) as u64,
        block_hash: s.subrange(100, 132),
        seq_number: be64_val(s.subrange(156, 164)) as u64,
        batcher_hash: s.subrange(164, 196),
        overhead: s.subrange(196, 228),
        scalar: s.subrange(228, 260),
    }
}

/// Parses the L1-attributes calldata of an epoch-opening deposit.
/// Succeeds exactly on well-formed calldata.
pub fn parse_l1_info_calldata(s: &Vec<u8>) -> (r: Result<L1Info, DecodeError>)
    ensures
        match r {
            Ok(info) => l1_info_calldata_wf(s@) && info@ == l1_info_of(s@),
            Err(e) => !l1_info_calldata_wf(s@) && e == DecodeError::Malformed,
        },
{
    if s.len() != 260 {
        return Err(DecodeError::Malformed);
    }
    if !(s[0] == 0x01 && s[1] == 0x5d && s[2] == 0x8e && s[3] == 0xb9) {
        proof {
            assert(s@.subrange(0, 4) == l1_info_selector() ==> s@[0] == 0x01 && s@[1] == 0x5d
                && s@[2] == 0x8e && s@[3] == 0xb9);
        }
        return Err(DecodeError::Malformed);
    }
    proof {
        assert(s@.subrange(0, 4) =~= l1_info_selector());
    }
    let mut i: usize = 4;
    while i < 28
        invariant
            4 <= i <= 28,
            s@.len() == 260,
            forall|j: int| 4 <= j < i ==> s@[j] == 0,
        decreases 28 - i,
    {
        if s[i] != 0 {
            return Err(DecodeError::Malformed);
        }
        i = i + 1;
    }
    let mut i2: usize = 36;
    while i2 < 60
        invariant
            36 <= i2 <= 60,
            s@.len() == 260,
            forall|j: int| 36 <= j < i2 ==> s@[j] == 0,
        decreases 60 - i2,
    {
        if s[i2] != 0 {
            return Err(DecodeError::Malformed);
        }
        i2 = i2 + 1;
    }
    let mut i3: usize = 132;
    while i3 < 156
        invariant
            132 <= i3 <= 156,
            s@.len() == 260,
            forall|j: int| 132 <= j < i3 ==> s@[j] == 0,
        decreases 156 - i3,
    {
        if s[i3] != 0 {
            return Err(DecodeError::Malformed);
        }
        i3 = i3 + 1;
    }
    Ok(L1Info {
        number: read_be64(s, 28),
        timestamp: read_be64(s, 60),
        block_hash: copy_range(s, 100, 132),
        seq_number: read_be64(s, 156),
        batcher_hash: copy_range(s, 164, 196),
        overhead: copy_range(s, 196, 228),
        scalar: copy_range(s, 228, 260),
    })
}

/// The L2 block info an L2 payload denotes under a rollup config: at the
/// L2 genesis height the origin is the genesis anchor; above it, the
/// origin and sequence number come from the epoch-opening deposit.
pub open spec fn l2_block_info_of(p: PayloadInfoV, cfg: RollupConfig) -> Result<
    L2BlockInfoV,
    DecodeError,
> {
    if p.number == cfg.genesis_l2_number {
        Ok(L2BlockInfoV {
            block_info: crate::types::BlockInfoV {
                hash: p.hash,
                number: p.number,
                parent_hash: p.parent_hash,
                timestamp: p.timestamp,
            },
            l1_origin_number: cfg.genesis_l1_number,
            l1_origin_hash: cfg.genesis_l1_hash@,
            seq_number: 0,
        })
    } else {
        match p.deposit_input {
            None => Err(DecodeError::MissingField),
            Some(input) => if l1_info_calldata_wf(input) {
                Ok(L2BlockInfoV {
                    block_info: crate::types::BlockInfoV {
                        hash: p.hash,
                        number: p.number,
                        parent_hash: p.parent_hash,
                        timestamp: p.timestamp,
                    },
                    l1_origin_number: l1_info_of(input).number,
                    l1_origin_hash: l1_info_of(input).block_hash,
                    seq_number: l1_info_of(input).seq_number,
                })
            } else {
                Err(DecodeError::Malformed)
            },
        }
    }
}

/// Derives the L2 block info from a decoded payload.
pub fn to_l2_block_info(p: &PayloadInfo, cfg: &RollupConfig) -> (r: Result<
    L2BlockInfo,
    DecodeError,
>)
    requires
        p.wf(),
        cfg.wf(),
    ensures
        match r {
            Ok(b) => l2_block_info_of(p@, *cfg) == Ok::<L2BlockInfoV, DecodeError>(b@)
                && b.wf(),
            Err(e) => l2_block_info_of(p@, *cfg) == Err::<L2BlockInfoV, DecodeError>(e),
        },
{
    let block_info = BlockInfo {
        hash: copy_bytes(&p.hash),
        number: p.number,
        parent_hash: copy_bytes(&p.parent_hash),
        timestamp: p.timestamp,
    };
    if p.number == cfg.genesis_l2_number {
        return Ok(L2BlockInfo {
            block_info,
            l1_origin_number: cfg.genesis_l1_number,
            l1_origin_hash: copy_bytes(&cfg.genesis_l1_hash),
            seq_number: 0,
        });
    }
    match &p.deposit_input {
        None => Err(DecodeError::MissingField),
        Some(input) => match parse_l1_info_calldata(input) {
            Ok(info) => Ok(L2BlockInfo {
                block_info,
                l1_origin_number: info.number,
                l1_origin_hash: info.block_hash,
                seq_number: info.seq_number,
            }),
            Err(e) => Err(e),
        },
    }
}

/// The system config an L2 payload denotes under a rollup config: the
/// genesis config at the genesis height, else the batcher address is the
/// tail of the deposit's batcher-hash word, the fee words are taken
/// whole, and the gas limit is the payload's.
pub open spec fn system_config_of(p: PayloadInfoV, cfg: RollupConfig) -> Result<
    SystemConfigV,
    DecodeError,
> {
    if p.number == cfg.genesis_l2_number {
        Ok(cfg.genesis_system_config@)
    } else {
        match p.deposit_input {
            None => Err(DecodeError::MissingField),
            Some(input) => if l1_info_calldata_wf(input) {
                Ok(SystemConfigV {
                    batcher_address: l1_info_of(input).batcher_hash.subrange(12, 32),
                    overhead: l1_info_of(input).overhead,
                    scalar: l1_info_of(input).scalar,
                    gas_limit: p.gas_limit,
                })
            } else {
                Err(DecodeError::Malformed)
            },
        }
    }
}

/// Derives the system config from a decoded payload.
pub fn to_system_config(p: &PayloadInfo, cfg: &RollupConfig) -> (r: Result<
    SystemConfig,
    DecodeError,
>)
    requires
        p.wf(),
        cfg.wf(),
    ensures
        match r {
            Ok(sc) => system_config_of(p@, *cfg) == Ok::<SystemConfigV, DecodeError>(sc@)
                && sc.wf(),
            Err(e) => system_config_of(p@, *cfg) == Err::<SystemConfigV, DecodeError>(e),
        },
{
    if p.number == cfg.genesis_l2_number {
        return Ok(cfg.genesis_system_config.dup());
    }
    match &p.deposit_input {
        None => Err(DecodeError::MissingField),
        Some(input) => match parse_l1_info_calldata(input) {
            Ok(info) => {
                let batcher_address = copy_range(&info.batcher_hash, 12, 32);
                Ok(SystemConfig {
                    batcher_address,
                    overhead: info.overhead,
                    scalar: info.scalar,
                    gas_limit: p.gas_limit,
                })
            },
            Err(e) => Err(e),
        },
    }
}

/// The cached L2 chain provider: payloads, derived L2 block infos and
/// derived system configs, each by block number, all derived under the
/// one rollup config the provider is built over. Fixing the config per
/// provider is what keeps a cached derivation from ever being served
/// for a different config.
pub struct L2ChainProvider {
    payloads: BoundedCache<PayloadInfo>,
    l2_infos: BoundedCache<L2BlockInfo>,
    configs: BoundedCache<SystemConfig>,
    rollup_config: RollupConfig,
}

impl L2ChainProvider {
    /// The payload cache, by block number key.
    pub closed spec fn payloads_model(&self) -> Map<Seq<u8>, PayloadInfoV> {
        self.payloads.model().map_values(|p: PayloadInfo| p@)
    }

    /// The L2-block-info cache, by block number key.
    pub closed spec fn l2_infos_model(&self) -> Map<Seq<u8>, L2BlockInfoV> {
        self.l2_infos.model().map_values(|b: L2BlockInfo| b@)
    }

    /// The system-config cache, by block number key.
    pub closed spec fn configs_model(&self) -> Map<Seq<u8>, SystemConfigV> {
        self.configs.model().map_values(|c: SystemConfig| c@)
    }

    /// The rollup config every derivation of this provider is made under.
    pub closed spec fn rollup(&self) -> RollupConfig {
        self.rollup_config
    }

    /// How many entries the payload cache holds.
    pub closed spec fn payloads_size(&self) -> nat {
        self.payloads.size()
    }

    /// How many entries the L2-block-info cache holds.
    pub closed spec fn l2_infos_size(&self) -> nat {
        self.l2_infos.size()
    }

    /// How many entries the system-config cache holds.
    pub closed spec fn configs_size(&self) -> nat {
        self.configs.size()
    }

    /// All three caches are well formed, the rollup config is well
    /// formed, and every cached system config is well formed.
    pub closed spec fn wf(&self) -> bool {
        &&& self.payloads.wf() && self.l2_infos.wf() && self.configs.wf()
        &&& self.rollup_config.wf()
        &&& forall|k: Seq<u8>|
            self.configs.model().dom().contains(k) ==> (#[trigger] self.configs.model()[
                k
            ]).wf()
    }

    /// Creates a provider with empty caches over one rollup config.
    pub fn new(rollup_config: RollupConfig) -> (r: L2ChainProvider)
        requires
            rollup_config.wf(),
        ensures
            r.wf(),
            r.rollup() == rollup_config,
            r.payloads_model() == Map::<Seq<u8>, PayloadInfoV>::empty(),
            r.l2_infos_model() == Map::<Seq<u8>, L2BlockInfoV>::empty(),
            r.configs_model() == Map::<Seq<u8>, SystemConfigV>::empty(),
    {
        let r = L2ChainProvider {
            payloads: BoundedCache::new(),
            l2_infos: BoundedCache::new(),
            configs: BoundedCache::new(),
            rollup_config,
        };
        proof {
            assert(r.payloads_model() =~= Map::<Seq<u8>, PayloadInfoV>::empty());
            assert(r.l2_infos_model() =~= Map::<Seq<u8>, L2BlockInfoV>::empty());
            assert(r.configs_model() =~= Map::<Seq<u8>, SystemConfigV>::empty());
        }
        r
    }

    /// Reads an `eth_chainId` response: the chain's id as a hex
    /// quantity.
    pub fn chain_id(&self, response: &Vec<u8>) -> (r: Result<u64, DecodeError>)
        ensures
            r == crate::provider::spec_parse_quantity(response@),
    {
        crate::provider::parse_quantity(response)
    }

    /// Reads an `eth_blockNumber` response: the latest L2 block number
    /// as a hex quantity.
    pub fn latest_block_number(&self, response: &Vec<u8>) -> (r: Result<u64, DecodeError>)
        ensures
            r == crate::provider::spec_parse_quantity(response@),
    {
        crate::provider::parse_quantity(response)
    }

    /// Consults the payload cache.
    pub fn cached_payload_by_number(&self, number: u64) -> (r: Option<&PayloadInfo>)
        requires
            self.wf(),
        ensures
            match r {
                Some(p) => self.payloads_model().dom().contains(be64_bytes(number))
                    && self.payloads_model()[be64_bytes(number)] == p@,
                None => !self.payloads_model().dom().contains(be64_bytes(number)),
            },
    {
        let key = u64_key(number);
        self.payloads.get(&key)
    }

    /// Decodes a raw `debug_getRawBlock` response and admits the payload
    /// under the requested number.
    pub fn admit_raw_payload(&mut self, number: u64, raw: &Vec<u8>) -> (r: Result<
        PayloadInfo,
        ProviderError,
    >)
        requires
            old(self).wf(),
        ensures
            final(self).wf(),
            final(self).rollup() == old(self).rollup(),
            final(self).l2_infos_model() == old(self).l2_infos_model(),
            final(self).configs_model() == old(self).configs_model(),
            final(self).l2_infos_size() == old(self).l2_infos_size(),
            final(self).configs_size() == old(self).configs_size(),
            match r {
                Ok(p) => op_block_decode_of(raw@) == Some(p@) && p.wf() && cache_step(
                    old(self).payloads_model(),
                    final(self).payloads_model(),
                    be64_bytes(number),
                    p@,
                ) && cache_retains(
                    old(self).payloads_model(),
                    final(self).payloads_model(),
                    be64_bytes(number),
                    p@,
                    old(self).payloads_size(),
                    final(self).payloads_size(),
                ),
                Err(e) => op_block_decode_of(raw@) is None && e == ProviderError::Decode(
                    DecodeError::Malformed,
                ) && final(self).payloads_model() == old(self).payloads_model()
                    && final(self).payloads_size() == old(self).payloads_size(),
            },
    {
        match decode_op_block_raw(raw) {
            Ok(p) => {
                let out = p.dup();
                let ghost stored = p;
                let key = u64_key(number);
                self.payloads.insert(&key, p);
                proof {
                    assert(cache_step(
                        old(self).payloads_model(),
                        self.payloads_model(),
                        be64_bytes(number),
                        out@,
                    ));
                    crate::provider::lemma_retains_map_values(
                        old(self).payloads.model(),
                        self.payloads.model(),
                        be64_bytes(number),
                        stored,
                        old(self).payloads.size(),
                        self.payloads.size(),
                        |p2: PayloadInfo| p2@,
                    );
                    assert(old(self).payloads.model().map_values(|p2: PayloadInfo| p2@)
                        =~= old(self).payloads_model());
                    assert(self.payloads.model().map_values(|p2: PayloadInfo| p2@)
                        =~= self.payloads_model());
                }
                Ok(out)
            },
            Err(_) => Err(ProviderError::Decode(DecodeError::Malformed)),
        }
    }

    /// Consults the L2-block-info cache.
    pub fn cached_l2_block_info_by_number(&self, number: u64) -> (r: Option<&L2BlockInfo>)
        requires
            self.wf(),
        ensures
            match r {
                Some(b) => self.l2_infos_model().dom().contains(be64_bytes(number))
                    && self.l2_infos_model()[be64_bytes(number)] == b@,
                None => !self.l2_infos_model().dom().contains(be64_bytes(number)),
            },
    {
        let key = u64_key(number);
        self.l2_infos.get(&key)
    }

    /// Derives the L2 block info from an admitted payload, under this
    /// provider's rollup config, and caches it under the payload's
    /// number.
    pub fn admit_l2_block_info(&mut self, number: u64, p: &PayloadInfo) -> (r: Result<
        L2BlockInfo,
        ProviderError,
    >)
        requires
            old(self).wf(),
            p.wf(),
        ensures
            final(self).wf(),
            final(self).rollup() == old(self).rollup(),
            final(self).payloads_model() == old(self).payloads_model(),
            final(self).configs_model() == old(self).configs_model(),
            final(self).payloads_size() == old(self).payloads_size(),
            final(self).configs_size() == old(self).configs_size(),
            match r {
                Ok(b) => l2_block_info_of(p@, old(self).rollup()) == Ok::<
                    L2BlockInfoV,
                    DecodeError,
                >(b@) && b.wf() && cache_step(
                    old(self).l2_infos_model(),
                    final(self).l2_infos_model(),
                    be64_bytes(number),
                    b@,
                ) && cache_retains(
                    old(self).l2_infos_model(),
                    final(self).l2_infos_model(),
                    be64_bytes(number),
                    b@,
                    old(self).l2_infos_size(),
                    final(self).l2_infos_size(),
                ),
                Err(ProviderError::Decode(e)) => l2_block_info_of(p@, old(self).rollup())
                    == Err::<L2BlockInfoV, DecodeError>(e) && final(self).l2_infos_model()
                    == old(self).l2_infos_model() && final(self).l2_infos_size() == old(
                    self,
                ).l2_infos_size(),
                Err(ProviderError::Transport) => false,
            },
    {
        match to_l2_block_info(p, &self.rollup_config) {
            Ok(b) => {
                let out = b.dup();
                let ghost stored = b;
                let key = u64_key(number);
                self.l2_infos.insert(&key, b);
                proof {
                    assert(cache_step(
                        old(self).l2_infos_model(),
                        self.l2_infos_model(),
                        be64_bytes(number),
                        out@,
                    ));
                    crate::provider::lemma_retains_map_values(
                        old(self).l2_infos.model(),
                        self.l2_infos.model(),
                        be64_bytes(number),
                        stored,
                        old(self).l2_infos.size(),
                        self.l2_infos.size(),
                        |b2: L2BlockInfo| b2@,
                    );
                    assert(old(self).l2_infos.model().map_values(|b2: L2BlockInfo| b2@)
                        =~= old(self).l2_infos_model());
                    assert(self.l2_infos.model().map_values(|b2: L2BlockInfo| b2@)
                        =~= self.l2_infos_model());
                }
                Ok(out)
            },
            Err(e) => Err(ProviderError::Decode(e)),
        }
    }

    /// Consults the system-config cache.
    pub fn cached_system_config_by_number(&self, number: u64) -> (r: Option<&SystemConfig>)
        requires
            self.wf(),
        ensures
            match r {
                Some(c) => self.configs_model().dom().contains(be64_bytes(number))
                    && self.configs_model()[be64_bytes(number)] == c@,
                None => !self.configs_model().dom().contains(be64_bytes(number)),
            },
    {
        let key = u64_key(number);
        self.configs.get(&key)
    }

    /// Derives the system config from an admitted payload, under this
    /// provider's rollup config, and caches it under the payload's
    /// number.
    pub fn admit_system_config(&mut self, number: u64, p: &PayloadInfo) -> (r: Result<
        SystemConfig,
        ProviderError,
    >)
        requires
            old(self).wf(),
            p.wf(),
        ensures
            final(self).wf(),
            final(self).rollup() == old(self).rollup(),
            final(self).payloads_model() == old(self).payloads_model(),
            final(self).l2_infos_model() == old(self).l2_infos_model(),
            final(self).payloads_size() == old(self).payloads_size(),
            final(self).l2_infos_size() == old(self).l2_infos_size(),
            match r {
                Ok(sc) => system_config_of(p@, old(self).rollup()) == Ok::<
                    SystemConfigV,
                    DecodeError,
                >(sc@) && sc.wf() && cache_step(
                    old(self).configs_model(),
                    final(self).configs_model(),
                    be64_bytes(number),
                    sc@,
                ) && cache_retains(
                    old(self).configs_model(),
                    final(self).configs_model(),
                    be64_bytes(number),
                    sc@,
                    old(self).configs_size(),
                    final(self).configs_size(),
                ),
                Err(ProviderError::Decode(e)) => system_config_of(p@, old(self).rollup())
                    == Err::<SystemConfigV, DecodeError>(e) && final(self).configs_model()
                    == old(self).configs_model() && final(self).configs_size() == old(
                    self,
                ).configs_size(),
                Err(ProviderError::Transport) => false,
            },
    {
        match to_system_config(p, &self.rollup_config) {
            Ok(sc) => {
                let out = sc.dup();
                let ghost stored = sc;
                let key = u64_key(number);
                self.configs.insert(&key, sc);
                proof {
                    assert(cache_step(
                        old(self).configs_model(),
                        self.configs_model(),
                        be64_bytes(number),
                        out@,
                    ));
                    crate::provider::lemma_retains_map_values(
                        old(self).configs.model(),
                        self.configs.model(),
                        be64_bytes(number),
                        stored,
                        old(self).configs.size(),
                        self.configs.size(),
                        |c2: SystemConfig| c2@,
                    );
                    assert(old(self).configs.model().map_values(|c2: SystemConfig| c2@)
                        =~= old(self).configs_model());
                    assert(self.configs.model().map_values(|c2: SystemConfig| c2@)
                        =~= self.configs_model());
                    assert forall|k2: Seq<u8>| self.configs.model().dom().contains(
                        k2,
                    ) implies (#[trigger] self.configs.model()[k2]).wf() by {
                        if k2 != be64_bytes(number) {
                            assert(old(self).configs.model().dom().contains(k2));
                        } else {
                            assert(self.configs.model()[k2] == stored);
                        }
                    }
                }
                Ok(out)
            },
            Err(e) => Err(ProviderError::Decode(e)),
        }
    }

    /// Every cached payload is the decode of the upstream source's bytes
    /// for its number key.
    pub open spec fn payloads_consistent_with(&self, source: Map<Seq<u8>, Seq<u8>>) -> bool {
        forall|k: Seq<u8>| #[trigger] self.payloads_model().dom().contains(k) ==>
            source.dom().contains(k) && op_block_decode_of(source[k]) == Some(
                self.payloads_model()[k],
            )
    }

    /// Every cached L2 block info is the derivation, under this
    /// provider's rollup config, of the payload held for its key.
    pub open spec fn l2_infos_consistent_with(
        &self,
        payloads: Map<Seq<u8>, PayloadInfoV>,
    ) -> bool {
        forall|k: Seq<u8>| #[trigger] self.l2_infos_model().dom().contains(k) ==>
            payloads.dom().contains(k) && l2_block_info_of(payloads[k], self.rollup())
                == Ok::<L2BlockInfoV, DecodeError>(self.l2_infos_model()[k])
    }

    /// Every cached system config is the derivation, under this
    /// provider's rollup config, of the payload held for its key.
    pub open spec fn configs_consistent_with(
        &self,
        payloads: Map<Seq<u8>, PayloadInfoV>,
    ) -> bool {
        forall|k: Seq<u8>| #[trigger] self.configs_model().dom().contains(k) ==>
            payloads.dom().contains(k) && system_config_of(payloads[k], self.rollup())
                == Ok::<SystemConfigV, DecodeError>(self.configs_model()[k])
    }
}

/// Freshness of the payload cache: admitting the source's own bytes for
/// a number keeps every cached payload equal to the decode of the
/// source's bytes for its number.
pub proof fn lemma_payload_admission_preserves_consistency(
    pre: L2ChainProvider,
    post: L2ChainProvider,
    source: Map<Seq<u8>, Seq<u8>>,
    number: u64,
    raw: Seq<u8>,
    p: PayloadInfoV,
)
    requires
        pre.payloads_consistent_with(source),
        cache_step(pre.payloads_model(), post.payloads_model(), be64_bytes(number), p),
        source.dom().contains(be64_bytes(number)),
        source[be64_bytes(number)] == raw,
        op_block_decode_of(raw) == Some(p),
    ensures
        post.payloads_consistent_with(source),
{
}

/// Freshness of the L2-block-info cache: admitting the derivation of the
/// payload held for a number keeps every cached info the derivation of
/// its own payload under the provider's config.
pub proof fn lemma_l2_info_admission_preserves_consistency(
    pre: L2ChainProvider,
    post: L2ChainProvider,
    payloads: Map<Seq<u8>, PayloadInfoV>,
    number: u64,
    p: PayloadInfoV,
    b: L2BlockInfoV,
)
    requires
        pre.l2_infos_consistent_with(payloads),
        post.rollup() == pre.rollup(),
        cache_step(pre.l2_infos_model(), post.l2_infos_model(), be64_bytes(number), b),
        payloads.dom().contains(be64_bytes(number)),
        payloads[be64_bytes(number)] == p,
        l2_block_info_of(p, pre.rollup()) == Ok::<L2BlockInfoV, DecodeError>(b),
    ensures
        post.l2_infos_consistent_with(payloads),
{
}

/// Freshness of the system-config cache: admitting the derivation of the
/// payload held for a number keeps every cached config the derivation of
/// its own payload under the provider's config — so a lookup can never
/// serve a config derived under any other rollup config.
pub proof fn lemma_config_admission_preserves_consistency(
    pre: L2ChainProvider,
    post: L2ChainProvider,
    payloads: Map<Seq<u8>, PayloadInfoV>,
    number: u64,
    p: PayloadInfoV,
    sc: SystemConfigV,
)
    requires
        pre.configs_consistent_with(payloads),
        post.rollup() == pre.rollup(),
        cache_step(pre.configs_model(), post.configs_model(), be64_bytes(number), sc),
        payloads.dom().contains(be64_bytes(number)),
        payloads[be64_bytes(number)] == p,
        system_config_of(p, pre.rollup()) == Ok::<SystemConfigV, DecodeError>(sc),
    ensures
        post.configs_consistent_with(payloads),
{
}

impl crate::driver::L2ConfigSource for L2ChainProvider {
    closed spec fn config_model(&self) -> Map<u64, SystemConfigV> {
        Map::new(
            |n: u64| self.configs_model().dom().contains(be64_bytes(n)),
            |n: u64| self.configs_model()[be64_bytes(n)],
        )
    }

    closed spec fn source_config(&self) -> RollupConfig {
        self.rollup_config
    }

    closed spec fn source_wf(&self) -> bool {
        self.wf()
    }

    fn system_config_by_number(&mut self, number: u64, cfg: &RollupConfig) -> (r: Result<
        SystemConfig,
        ProviderError,
    >) {
        let key = u64_key(number);
        match self.configs.get(&key) {
            Some(sc) => {
                proof {
                    assert(self.config_model().dom().contains(number));
                    assert(self.config_model()[number] == self.configs_model()[be64_bytes(
                        number,
                    )]);
                    assert(self.configs.model()[be64_bytes(number)].wf());
                }
                Ok(sc.dup())
            },
            None => {
                proof {
                    assert(!self.config_model().dom().contains(number));
                }
                Err(ProviderError::Transport)
            },
        }
    }
}

} // verus!
