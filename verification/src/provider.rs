//! The L1 chain provider: raw `debug` namespace responses are decoded and
//! remembered in bounded caches keyed by the request argument.
//!
//! Fetching itself is I/O and lives with the process plumbing: callers
//! first consult the cache, and on a miss hand the raw response bytes to
//! an `admit_*` operation, which decodes, caches and returns. The caches
//! are an optimization, never a semantic: admitted entries are exactly
//! the decodes of what was handed in, and nothing else ever enters.

use vstd::prelude::*;
use alloy_consensus::TxReceipt;
use alloy_eips::eip2718::Encodable2718;
use crate::byteops::{copy_range, parse_hex_u64, hex_val_of, all_hex_digits};
use crate::errors::{DecodeError, ProviderError};
use crate::types::{BlockInfo, BlockInfoV, HeaderInfo, HeaderInfoV, ReceiptInfo};

verus! {

/// Every cache of the provider holds at most this many entries.
pub const CACHE_BOUND: usize = 16;

/// What decoding an RLP header yields, if anything: the fields of
/// [`HeaderInfo`], with the hash computed from the bytes.
pub uninterp spec fn header_decode_of(raw: Seq<u8>) -> Option<HeaderInfoV>;

/// What decoding one RLP receipt (sans type byte) yields, if anything.
pub uninterp spec fn receipt_decode_of(raw: Seq<u8>) -> Option<ReceiptInfo>;

/// What decoding an RLP block yields, if anything: the block summary and
/// the EIP-2718 encoding of each transaction.
pub uninterp spec fn block_decode_of(raw: Seq<u8>) -> Option<(BlockInfoV, Seq<Seq<u8>>)>;

/// Relies on `alloy_consensus::Header`'s `alloy_rlp::Decodable` impl and
/// `Header::hash_slow`: both are functions of the raw bytes alone.
#[verifier::external_body]
fn decode_header_raw(raw: &Vec<u8>) -> (r: Result<HeaderInfo, DecodeError>)
    ensures
        match r {
            Ok(h) => header_decode_of(raw@) == Some(h@) && h.wf(),
            Err(e) => header_decode_of(raw@) is None && e == DecodeError::Malformed,
        },
{
    let mut buf: &[u8] = raw.as_slice();
    match <alloy_consensus::Header as alloy_rlp::Decodable>::decode(&mut buf) {
        Ok(h) => {
            let (hash, parent_hash) = (h.hash_slow().to_vec(), h.parent_hash.to_vec());
            Ok(HeaderInfo { hash, number: h.number, parent_hash, timestamp: h.timestamp, gas_limit: h.gas_limit })
        },
        Err(_) => Err(DecodeError::Malformed),
    }
}

/// Relies on `alloy_consensus::ReceiptWithBloom`'s `alloy_rlp::Decodable`
/// impl: a function of the raw bytes alone.
#[verifier::external_body]
fn decode_receipt_raw(raw: &Vec<u8>) -> (r: Result<ReceiptInfo, DecodeError>)
    ensures
        match r {
            Ok(ri) => receipt_decode_of(raw@) == Some(ri),
            Err(e) => receipt_decode_of(raw@) is None && e == DecodeError::Malformed,
        },
{
    let mut buf: &[u8] = raw.as_slice();
    match <alloy_consensus::ReceiptWithBloom as alloy_rlp::Decodable>::decode(&mut buf) {
        Ok(rwb) => Ok(ReceiptInfo {
            success: rwb.status(),
            cumulative_gas_used: rwb.receipt.cumulative_gas_used,
            log_count: rwb.receipt.logs.len() as u64,
        }),
        Err(_) => Err(DecodeError::Malformed),
    }
}

/// Relies on `alloy_consensus::Block`'s `alloy_rlp::Decodable` impl,
/// `Header::hash_slow`, and each transaction's `Encodable2718` encoding:
/// all functions of the raw bytes alone.
#[verifier::external_body]
fn decode_block_raw(raw: &Vec<u8>) -> (r: Result<(BlockInfo, Vec<Vec<u8>>), DecodeError>)
    ensures
        match r {
            Ok(p) => block_decode_of(raw@) == Some((p.0@, p.1.deep_view())) && p.0.wf(),
            Err(e) => block_decode_of(raw@) is None && e == DecodeError::Malformed,
        },
{
    let mut buf: &[u8] = raw.as_slice();
    match <alloy_consensus::Block<alloy_consensus::TxEnvelope> as alloy_rlp::Decodable>::decode(&mut buf) {
        Ok(b) => {
            let (hash, h) = (b.header.hash_slow().to_vec(), &b.header);
            let info = BlockInfo { hash, number: h.number, parent_hash: h.parent_hash.to_vec(), timestamp: h.timestamp };
            let txs: Vec<Vec<u8>> = b.body.transactions.iter().map(|t| t.encoded_2718()).collect();
            Ok((info, txs))
        },
        Err(_) => Err(DecodeError::Malformed),
    }
}

/// A receipt response with its typed-envelope byte removed: types up to
/// `3` are tags and are dropped; a legacy receipt opens with an RLP list
/// prefix and is left whole.
pub open spec fn strip_type_byte(s: Seq<u8>) -> Seq<u8> {
    if s.len() > 0 && s[0] <= 3 {
        s.subrange(1, s.len() as int)
    } else {
        s
    }
}

/// Decodes one receipt response, tolerating both legacy and typed
/// envelopes for types up to `3`.
pub fn decode_receipt_envelope(raw: &Vec<u8>) -> (r: Result<ReceiptInfo, DecodeError>)
    ensures
        match r {
            Ok(ri) => receipt_decode_of(strip_type_byte(raw@)) == Some(ri),
            Err(e) => receipt_decode_of(strip_type_byte(raw@)) is None && e
                == DecodeError::Malformed,
        },
{
    if raw.len() > 0 && raw[0] <= 3 {
        let inner: Vec<u8> = copy_range(raw, 1, raw.len());
        decode_receipt_raw(&inner)
    } else {
        decode_receipt_raw(raw)
    }
}

/// Typed-envelope tolerance: a receipt wrapped in a type byte up to `3`
/// and the bare receipt decode alike, because an RLP-encoded receipt
/// list opens with a byte no envelope tag can be.
pub proof fn lemma_receipt_envelope_tolerance(inner: Seq<u8>, t: u8)
    requires
        inner.len() > 0,
        inner[0] >= 0xc0,
        t <= 3,
    ensures
        strip_type_byte(seq![t] + inner) == inner,
        strip_type_byte(inner) == inner,
{
    assert((seq![t] + inner)[0] == t);
    assert((seq![t] + inner).subrange(1, (seq![t] + inner).len() as int) =~= inner);
}

/// A bounded cache over 32-byte request keys: at most [`CACHE_BOUND`]
/// entries, and every entry is exactly what was last admitted for its key.
pub struct BoundedCache<V> {
    keys: Vec<Vec<u8>>,
    vals: Vec<V>,
    contents: Ghost<Map<Seq<u8>, V>>,
}

/// One cache admission: the new contents bind `k` to `v`, and bind no
/// key the old contents did not already bind the same way.
pub open spec fn cache_step<V>(
    old_m: Map<Seq<u8>, V>,
    new_m: Map<Seq<u8>, V>,
    k: Seq<u8>,
    v: V,
) -> bool {
    &&& new_m.dom().contains(k) && new_m[k] == v
    &&& forall|k2: Seq<u8>|
        k2 != k && #[trigger] new_m.dom().contains(k2) ==> old_m.dom().contains(k2)
            && new_m[k2] == old_m[k2]
}

/// Retention across one admission: under the bound, or on a key already
/// held, nothing is dropped — the new contents are exactly the old plus
/// the binding; at the bound, at most one old binding leaves; and the
/// entry count moves accordingly. This is what makes a cache hit
/// provable for any key admitted within the bound's worth of distinct
/// admissions.
pub open spec fn cache_retains<V>(
    old_m: Map<Seq<u8>, V>,
    new_m: Map<Seq<u8>, V>,
    k: Seq<u8>,
    v: V,
    old_size: nat,
    new_size: nat,
) -> bool {
    &&& (old_size < CACHE_BOUND || old_m.dom().contains(k)) ==> new_m == old_m.insert(k, v)
    &&& exists|e: Seq<u8>| new_m == old_m.remove(e).insert(k, v)
    &&& new_size == (if old_m.dom().contains(k) {
        old_size as int
    } else if old_size < CACHE_BOUND {
        old_size + 1int
    } else {
        old_size as int
    })
}

/// Carries one admission's retention through a value map.
pub proof fn lemma_retains_map_values<V, W>(
    old_m: Map<Seq<u8>, V>,
    new_m: Map<Seq<u8>, V>,
    k: Seq<u8>,
    v: V,
    old_size: nat,
    new_size: nat,
    f: spec_fn(V) -> W,
)
    requires
        cache_retains(old_m, new_m, k, v, old_size, new_size),
    ensures
        cache_retains(old_m.map_values(f), new_m.map_values(f), k, f(v), old_size, new_size),
{
    assert(old_m.map_values(f).dom() =~= old_m.dom());
    if old_size < CACHE_BOUND || old_m.dom().contains(k) {
        assert(new_m.map_values(f) =~= old_m.map_values(f).insert(k, f(v)));
    }
    let e = choose|e: Seq<u8>| new_m == old_m.remove(e).insert(k, v);
    assert(new_m.map_values(f) =~= old_m.map_values(f).remove(e).insert(k, f(v)));
}

impl<V> BoundedCache<V> {
    /// The cache's contents as a map from request keys to values.
    pub closed spec fn model(&self) -> Map<Seq<u8>, V> {
        self.contents@
    }

    /// How many entries the cache holds.
    pub closed spec fn size(&self) -> nat {
        self.keys@.len()
    }

    /// The cache's internal invariant, bound included.
    pub closed spec fn wf(&self) -> bool {
        &&& self.keys@.len() == self.vals@.len()
        &&& self.keys@.len() <= CACHE_BOUND
        &&& forall|i: int, j: int|
            0 <= i < j < self.keys@.len() ==> self.keys@[i]@ != self.keys@[j]@
        &&& forall|j: int|
            0 <= j < self.keys@.len() ==> #[trigger] self.contents@.dom().contains(
                self.keys@[j]@,
            ) && self.contents@[self.keys@[j]@] == self.vals@[j]
        &&& forall|k: Seq<u8>|
            self.contents@.dom().contains(k) ==> exists|j: int|
                0 <= j < self.keys@.len() && #[trigger] self.keys@[j]@ == k
    }

    /// A well-formed cache holds at most [`CACHE_BOUND`] entries.
    pub proof fn lemma_bounded(&self)
        requires
            self.wf(),
        ensures
            self.size() <= CACHE_BOUND,
    {
    }

    /// Creates an empty cache.
    pub fn new() -> (r: BoundedCache<V>)
        ensures
            r.wf(),
            r.model() == Map::<Seq<u8>, V>::empty(),
            r.size() == 0,
    {
        BoundedCache { keys: Vec::new(), vals: Vec::new(), contents: Ghost(Map::empty()) }
    }

    /// Looks a request key up; returns exactly what the contents bind it
    /// to, or nothing.
    pub fn get(&self, key: &Vec<u8>) -> (r: Option<&V>)
        requires
            self.wf(),
        ensures
            match r {
                Some(v) => self.model().dom().contains(key@) && *v == self.model()[key@],
                None => !self.model().dom().contains(key@),
            },
    {
        let mut i: usize = 0;
        while i < self.keys.len()
            invariant
                self.wf(),
                i <= self.keys@.len(),
                forall|j: int| 0 <= j < i ==> self.keys@[j]@ != key@,
            decreases self.keys@.len() - i,
        {
            if crate::byteops::bytes_eq(&self.keys[i], key) {
                proof {
                    assert(self.contents@.dom().contains(self.keys@[i as int]@));
                }
                return Some(&self.vals[i]);
            }
            i = i + 1;
        }
        proof {
            if self.contents@.dom().contains(key@) {
                let j = choose|j: int|
                    0 <= j < self.keys@.len() && #[trigger] self.keys@[j]@ == key@;
                assert(false);
            }
        }
        None
    }

    /// Admits one entry, evicting an old one if the cache is full.
    #[verifier::loop_isolation(false)]
    pub fn insert(&mut self, key: &Vec<u8>, value: V)
        requires
            old(self).wf(),
        ensures
            final(self).wf(),
            final(self).size() <= CACHE_BOUND,
            cache_step(old(self).model(), final(self).model(), key@, value),
            cache_retains(
                old(self).model(),
                final(self).model(),
                key@,
                value,
                old(self).size(),
                final(self).size(),
            ),
    {
        let ghost old_self = *self;
        let mut i: usize = 0;
        while i < self.keys.len()
            invariant
                *self == old_self,
                i <= self.keys@.len(),
                forall|j: int| 0 <= j < i ==> self.keys@[j]@ != key@,
            decreases self.keys@.len() - i,
        {
            if crate::byteops::bytes_eq(&self.keys[i], key) {
                self.vals.set(i, value);
                proof {
                    self.contents@ = self.contents@.insert(key@, self.vals@[i as int]);
                    assert forall|j: int| 0 <= j < self.keys@.len() implies
                        #[trigger] self.contents@.dom().contains(self.keys@[j]@)
                            && self.contents@[self.keys@[j]@] == self.vals@[j] by {
                        if j != i {
                            if j < i {
                                assert(old_self.keys@[j]@ != old_self.keys@[i as int]@);
                            } else {
                                assert(old_self.keys@[i as int]@ != old_self.keys@[j]@);
                            }
                            assert(old_self.contents@.dom().contains(old_self.keys@[j]@));
                        }
                    }
                    assert forall|k: Seq<u8>| self.contents@.dom().contains(k) implies exists|j: int|
                        0 <= j < self.keys@.len() && #[trigger] self.keys@[j]@ == k by {
                        if k != key@ {
                            assert(old_self.contents@.dom().contains(k));
                            let j = choose|j: int|
                                0 <= j < old_self.keys@.len() && #[trigger] old_self.keys@[j]@
                                    == k;
                            assert(self.keys@[j]@ == k);
                        } else {
                            assert(self.keys@[i as int]@ == k);
                        }
                    }
                    assert(self.wf());
                    assert(old_self.contents@.dom().contains(key@)) by {
                        assert(old_self.contents@.dom().contains(old_self.keys@[i as int]@));
                    }
                    assert(self.model() == old_self.model().insert(key@, value));
                    assert(exists|e: Seq<u8>|
                        self.model() == old_self.model().remove(e).insert(key@, value)) by {
                        assert(self.model() =~= old_self.model().remove(key@).insert(
                            key@,
                            value,
                        ));
                    }
                }
                return ;
            }
            i = i + 1;
        }
        if self.keys.len() >= CACHE_BOUND {
            let ghost evicted = self.keys@[0]@;
            self.keys.set(0, crate::byteops::copy_bytes(key));
            self.vals.set(0, value);
            proof {
                self.contents@ = self.contents@.remove(evicted).insert(
                    key@,
                    self.vals@[0],
                );
                assert forall|i2: int, j2: int|
                    0 <= i2 < j2 < self.keys@.len() implies self.keys@[i2]@ != self.keys@[j2]@ by {
                    if i2 == 0 {
                        assert(old_self.keys@[j2]@ != key@);
                    }
                }
                assert forall|j: int| 0 <= j < self.keys@.len() implies
                    #[trigger] self.contents@.dom().contains(self.keys@[j]@)
                        && self.contents@[self.keys@[j]@] == self.vals@[j] by {
                    if j != 0 {
                        assert(old_self.contents@.dom().contains(old_self.keys@[j]@));
                        assert(old_self.keys@[0]@ != old_self.keys@[j]@);
                        assert(old_self.keys@[j]@ != key@);
                    }
                }
                assert forall|k: Seq<u8>| self.contents@.dom().contains(k) implies exists|j: int|
                    0 <= j < self.keys@.len() && #[trigger] self.keys@[j]@ == k by {
                    if k == key@ {
                        assert(self.keys@[0]@ == k);
                    } else {
                        assert(old_self.contents@.dom().contains(k));
                        let j = choose|j: int|
                            0 <= j < old_self.keys@.len() && #[trigger] old_self.keys@[j]@ == k;
                        assert(j != 0);
                        assert(self.keys@[j]@ == k);
                    }
                }
                assert(self.wf());
                assert(!old_self.contents@.dom().contains(key@)) by {
                    if old_self.contents@.dom().contains(key@) {
                        let j = choose|j: int|
                            0 <= j < old_self.keys@.len() && #[trigger] old_self.keys@[j]@
                                == key@;
                        assert(false);
                    }
                }
                assert(old_self.size() >= CACHE_BOUND);
                assert(exists|e: Seq<u8>|
                    self.model() == old_self.model().remove(e).insert(key@, value)) by {
                    assert(self.model() == old_self.model().remove(evicted).insert(
                        key@,
                        value,
                    ));
                }
            }
        } else {
            self.keys.push(crate::byteops::copy_bytes(key));
            self.vals.push(value);
            proof {
                self.contents@ = self.contents@.insert(key@, self.vals@[self.vals@.len() - 1]);
                assert forall|k: Seq<u8>| self.contents@.dom().contains(k) implies exists|j: int|
                    0 <= j < self.keys@.len() && #[trigger] self.keys@[j]@ == k by {
                    if k != key@ {
                        assert(old_self.contents@.dom().contains(k));
                        let j = choose|j: int|
                            0 <= j < old_self.keys@.len() && #[trigger] old_self.keys@[j]@ == k;
                        assert(self.keys@[j]@ == k);
                    } else {
                        assert(self.keys@[self.keys@.len() - 1]@ == k);
                    }
                }
                assert(self.wf());
                assert(!old_self.contents@.dom().contains(key@)) by {
                    if old_self.contents@.dom().contains(key@) {
                        let j = choose|j: int|
                            0 <= j < old_self.keys@.len() && #[trigger] old_self.keys@[j]@
                                == key@;
                        assert(false);
                    }
                }
                assert(self.model() == old_self.model().insert(key@, value));
                assert(exists|e: Seq<u8>|
                    self.model() == old_self.model().remove(e).insert(key@, value)) by {
                    assert(old_self.model().remove(key@) =~= old_self.model());
                    assert(self.model() =~= old_self.model().remove(key@).insert(key@, value));
                }
            }
        }
    }
}

/// The canonical 8-byte big-endian key under which a block number is
/// cached.
pub open spec fn be64_bytes(n: u64) -> Seq<u8> {
    seq![
        (n / 0x100000000000000) as u8,
        (n / 0x1000000000000 % 0x100) as u8,
        (n / 0x10000000000 % 0x100) as u8,
        (n / 0x100000000 % 0x100) as u8,
        (n / 0x1000000 % 0x100) as u8,
        (n / 0x10000 % 0x100) as u8,
        (n / 0x100 % 0x100) as u8,
        (n % 0x100) as u8,
    ]
}

/// Builds the cache key of a block number.
pub fn u64_key(n: u64) -> (r: Vec<u8>)
    ensures
        r@ == be64_bytes(n),
{
    let mut out: Vec<u8> = Vec::new();
    out.push((n / 0x100000000000000) as u8);
    out.push((n / 0x1000000000000 % 0x100) as u8);
    out.push((n / 0x10000000000 % 0x100) as u8);
    out.push((n / 0x100000000 % 0x100) as u8);
    out.push((n / 0x1000000 % 0x100) as u8);
    out.push((n / 0x10000 % 0x100) as u8);
    out.push((n / 0x100 % 0x100) as u8);
    out.push((n % 0x100) as u8);
    proof {
        assert(out@ =~= be64_bytes(n));
    }
    out
}

/// What a hexadecimal quantity response denotes: an optional `0x`
/// prefix then hexadecimal digits, which must be non-empty, well formed
/// and fit a `u64`.
pub open spec fn spec_parse_quantity(s: Seq<u8>) -> Result<u64, DecodeError> {
    let start: int = if s.len() >= 2 && s[0] == 0x30 && s[1] == 0x78 {
        2
    } else {
        0
    };
    let digits = s.subrange(start, s.len() as int);
    if digits.len() >= 1 && all_hex_digits(digits) && hex_val_of(digits) <= u64::MAX {
        Ok(hex_val_of(digits) as u64)
    } else {
        Err(DecodeError::Malformed)
    }
}

/// Parses an `eth_chainId` or `eth_blockNumber` response.
pub fn parse_quantity(s: &Vec<u8>) -> (r: Result<u64, DecodeError>)
    ensures
        r == spec_parse_quantity(s@),
{
    let start: usize = if s.len() >= 2 && s[0] == 0x30 && s[1] == 0x78 {
        2
    } else {
        0
    };
    match parse_hex_u64(s, start) {
        Some(v) => Ok(v),
        None => Err(DecodeError::Malformed),
    }
}

/// The cached L1 chain provider. One bounded cache per read operation,
/// keyed by the request argument; raw responses come in through the
/// `admit_*` operations.
pub struct ChainProvider {
    headers: BoundedCache<HeaderInfo>,
    block_infos: BoundedCache<BlockInfo>,
    receipts: BoundedCache<Vec<ReceiptInfo>>,
    blocks: BoundedCache<(BlockInfo, Vec<Vec<u8>>)>,
}

impl ChainProvider {
    /// The header cache, by block hash.
    pub closed spec fn headers_model(&self) -> Map<Seq<u8>, HeaderInfoV> {
        self.headers.model().map_values(|h: HeaderInfo| h@)
    }

    /// The block-summary cache, by block number key.
    pub closed spec fn block_infos_model(&self) -> Map<Seq<u8>, BlockInfoV> {
        self.block_infos.model().map_values(|b: BlockInfo| b@)
    }

    /// The receipts cache, by block hash.
    pub closed spec fn receipts_model(&self) -> Map<Seq<u8>, Seq<ReceiptInfo>> {
        self.receipts.model().map_values(|v: Vec<ReceiptInfo>| v@)
    }

    /// The block-and-transactions cache, by block hash.
    pub closed spec fn blocks_model(&self) -> Map<Seq<u8>, (BlockInfoV, Seq<Seq<u8>>)> {
        self.blocks.model().map_values(|p: (BlockInfo, Vec<Vec<u8>>)| (p.0@, p.1.deep_view()))
    }

    /// How many entries the header cache holds.
    pub closed spec fn headers_size(&self) -> nat {
        self.headers.size()
    }

    /// How many entries the block-summary cache holds.
    pub closed spec fn block_infos_size(&self) -> nat {
        self.block_infos.size()
    }

    /// How many entries the receipts cache holds.
    pub closed spec fn receipts_size(&self) -> nat {
        self.receipts.size()
    }

    /// How many entries the block-and-transactions cache holds.
    pub closed spec fn blocks_size(&self) -> nat {
        self.blocks.size()
    }

    /// All four caches are well formed.
    pub closed spec fn wf(&self) -> bool {
        self.headers.wf() && self.block_infos.wf() && self.receipts.wf() && self.blocks.wf()
    }

    /// Creates a provider with empty caches.
    pub fn new() -> (r: ChainProvider)
        ensures
            r.wf(),
            r.headers_model() == Map::<Seq<u8>, HeaderInfoV>::empty(),
            r.block_infos_model() == Map::<Seq<u8>, BlockInfoV>::empty(),
            r.receipts_model() == Map::<Seq<u8>, Seq<ReceiptInfo>>::empty(),
            r.blocks_model() == Map::<Seq<u8>, (BlockInfoV, Seq<Seq<u8>>)>::empty(),
    {
        let r = ChainProvider {
            headers: BoundedCache::new(),
            block_infos: BoundedCache::new(),
            receipts: BoundedCache::new(),
            blocks: BoundedCache::new(),
        };
        proof {
            assert(r.headers_model() =~= Map::<Seq<u8>, HeaderInfoV>::empty());
            assert(r.block_infos_model() =~= Map::<Seq<u8>, BlockInfoV>::empty());
            assert(r.receipts_model() =~= Map::<Seq<u8>, Seq<ReceiptInfo>>::empty());
            assert(r.blocks_model() =~= Map::<Seq<u8>, (BlockInfoV, Seq<Seq<u8>>)>::empty());
        }
        r
    }

    /// Consults the header cache.
    pub fn cached_header_by_hash(&self, hash: &Vec<u8>) -> (r: Option<&HeaderInfo>)
        requires
            self.wf(),
        ensures
            match r {
                Some(h) => self.headers_model().dom().contains(hash@)
                    && self.headers_model()[hash@] == h@,
                None => !self.headers_model().dom().contains(hash@),
            },
    {
        self.headers.get(hash)
    }

    /// Decodes a raw `debug_getRawHeader` response and admits it under
    /// the requested hash. Succeeds exactly when the bytes decode.
    pub fn admit_raw_header(&mut self, hash: &Vec<u8>, raw: &Vec<u8>) -> (r: Result<
        HeaderInfo,
        ProviderError,
    >)
        requires
            old(self).wf(),
        ensures
            final(self).wf(),
            final(self).block_infos_model() == old(self).block_infos_model(),
            final(self).receipts_model() == old(self).receipts_model(),
            final(self).blocks_model() == old(self).blocks_model(),
            final(self).block_infos_size() == old(self).block_infos_size(),
            final(self).receipts_size() == old(self).receipts_size(),
            final(self).blocks_size() == old(self).blocks_size(),
            match r {
                Ok(h) => header_decode_of(raw@) == Some(h@) && h.wf() && cache_step(
                    old(self).headers_model(),
                    final(self).headers_model(),
                    hash@,
                    h@,
                ) && cache_retains(
                    old(self).headers_model(),
                    final(self).headers_model(),
                    hash@,
                    h@,
                    old(self).headers_size(),
                    final(self).headers_size(),
                ),
                Err(e) => header_decode_of(raw@) is None && e == ProviderError::Decode(
                    DecodeError::Malformed,
                ) && final(self).headers_model() == old(self).headers_model()
                    && final(self).headers_size() == old(self).headers_size(),
            },
    {
        match decode_header_raw(raw) {
            Ok(h) => {
                let out = h.dup();
                let ghost stored = h;
                self.headers.insert(hash, h);
                proof {
                    assert(cache_step(
                        old(self).headers_model(),
                        self.headers_model(),
                        hash@,
                        out@,
                    ));
                    lemma_retains_map_values(
                        old(self).headers.model(),
                        self.headers.model(),
                        hash@,
                        stored,
                        old(self).headers.size(),
                        self.headers.size(),
                        |h2: HeaderInfo| h2@,
                    );
                    assert(old(self).headers.model().map_values(|h2: HeaderInfo| h2@) =~= old(
                        self,
                    ).headers_model());
                    assert(self.headers.model().map_values(|h2: HeaderInfo| h2@)
                        =~= self.headers_model());
                }
                Ok(out)
            },
            Err(_) => Err(ProviderError::Decode(DecodeError::Malformed)),
        }
    }

    /// Consults the block-summary cache.
    pub fn cached_block_info_by_number(&self, number: u64) -> (r: Option<&BlockInfo>)
        requires
            self.wf(),
        ensures
            match r {
                Some(b) => self.block_infos_model().dom().contains(be64_bytes(number))
                    && self.block_infos_model()[be64_bytes(number)] == b@,
                None => !self.block_infos_model().dom().contains(be64_bytes(number)),
            },
    {
        let key = u64_key(number);
        self.block_infos.get(&key)
    }

    /// Decodes a raw header response for a by-number request and admits
    /// the block summary under the requested number, which the summary
    /// carries.
    #[verifier::rlimit(50)]
    pub fn admit_raw_header_by_number(&mut self, number: u64, raw: &Vec<u8>) -> (r: Result<
        BlockInfo,
        ProviderError,
    >)
        requires
            old(self).wf(),
        ensures
            final(self).wf(),
            final(self).headers_model() == old(self).headers_model(),
            final(self).receipts_model() == old(self).receipts_model(),
            final(self).blocks_model() == old(self).blocks_model(),
            final(self).headers_size() == old(self).headers_size(),
            final(self).receipts_size() == old(self).receipts_size(),
            final(self).blocks_size() == old(self).blocks_size(),
            match r {
                Ok(b) => header_decode_of(raw@) is Some && b@.hash == header_decode_of(
                    raw@,
                )->0.hash && b@.parent_hash == header_decode_of(raw@)->0.parent_hash
                    && b@.timestamp == header_decode_of(raw@)->0.timestamp && b@.number
                    == number && b.wf() && cache_step(
                    old(self).block_infos_model(),
                    final(self).block_infos_model(),
                    be64_bytes(number),
                    b@,
                ) && cache_retains(
                    old(self).block_infos_model(),
                    final(self).block_infos_model(),
                    be64_bytes(number),
                    b@,
                    old(self).block_infos_size(),
                    final(self).block_infos_size(),
                ),
                Err(e) => header_decode_of(raw@) is None && e == ProviderError::Decode(
                    DecodeError::Malformed,
                ) && final(self).block_infos_model() == old(self).block_infos_model()
                    && final(self).block_infos_size() == old(self).block_infos_size(),
            },
    {
        match decode_header_raw(raw) {
            Ok(h) => {
                let b = BlockInfo {
                    hash: h.hash,
                    number,
                    parent_hash: h.parent_hash,
                    timestamp: h.timestamp,
                };
                let out = b.dup();
                let ghost stored = b;
                let key = u64_key(number);
                self.block_infos.insert(&key, b);
                proof {
                    assert(cache_step(
                        old(self).block_infos_model(),
                        self.block_infos_model(),
                        be64_bytes(number),
                        out@,
                    ));
                    lemma_retains_map_values(
                        old(self).block_infos.model(),
                        self.block_infos.model(),
                        be64_bytes(number),
                        stored,
                        old(self).block_infos.size(),
                        self.block_infos.size(),
                        |b2: BlockInfo| b2@,
                    );
                    assert(old(self).block_infos.model().map_values(|b2: BlockInfo| b2@)
                        =~= old(self).block_infos_model());
                    assert(self.block_infos.model().map_values(|b2: BlockInfo| b2@)
                        =~= self.block_infos_model());
                }
                Ok(out)
            },
            Err(_) => Err(ProviderError::Decode(DecodeError::Malformed)),
        }
    }

    /// Consults the receipts cache.
    pub fn cached_receipts_by_hash(&self, hash: &Vec<u8>) -> (r: Option<&Vec<ReceiptInfo>>)
        requires
            self.wf(),
        ensures
            match r {
                Some(v) => self.receipts_model().dom().contains(hash@)
                    && self.receipts_model()[hash@] == v@,
                None => !self.receipts_model().dom().contains(hash@),
            },
    {
        self.receipts.get(hash)
    }

    /// Decodes a raw `debug_getRawReceipts` response, one envelope per
    /// receipt, and admits the list under the requested hash. Succeeds
    /// exactly when every envelope decodes.
    #[verifier::loop_isolation(false)]
    #[verifier::rlimit(50)]
    pub fn admit_raw_receipts(&mut self, hash: &Vec<u8>, raws: &Vec<Vec<u8>>) -> (r: Result<
        Vec<ReceiptInfo>,
        ProviderError,
    >)
        requires
            old(self).wf(),
        ensures
            final(self).wf(),
            final(self).headers_model() == old(self).headers_model(),
            final(self).block_infos_model() == old(self).block_infos_model(),
            final(self).blocks_model() == old(self).blocks_model(),
            final(self).headers_size() == old(self).headers_size(),
            final(self).block_infos_size() == old(self).block_infos_size(),
            final(self).blocks_size() == old(self).blocks_size(),
            match r {
                Ok(rs) => rs@.len() == raws@.len() && (forall|i: int|
                    0 <= i < raws@.len() ==> receipt_decode_of(strip_type_byte(raws@[i]@))
                        == Some(rs@[i])) && cache_step(
                    old(self).receipts_model(),
                    final(self).receipts_model(),
                    hash@,
                    rs@,
                ) && cache_retains(
                    old(self).receipts_model(),
                    final(self).receipts_model(),
                    hash@,
                    rs@,
                    old(self).receipts_size(),
                    final(self).receipts_size(),
                ),
                Err(e) => (exists|i: int|
                    0 <= i < raws@.len() && receipt_decode_of(
                        strip_type_byte(#[trigger] raws@[i]@),
                    ) is None) && e == ProviderError::Decode(DecodeError::Malformed)
                    && final(self).receipts_model() == old(self).receipts_model()
                    && final(self).receipts_size() == old(self).receipts_size(),
            },
    {
        let mut rs: Vec<ReceiptInfo> = Vec::new();
        let mut i: usize = 0;
        while i < raws.len()
            invariant
                i <= raws@.len(),
                rs@.len() == i,
                forall|j: int|
                    0 <= j < i ==> receipt_decode_of(strip_type_byte(raws@[j]@)) == Some(
                        rs@[j],
                    ),
            decreases raws@.len() - i,
        {
            match decode_receipt_envelope(&raws[i]) {
                Ok(ri) => {
                    rs.push(ri);
                },
                Err(_) => {
                    return Err(ProviderError::Decode(DecodeError::Malformed));
                },
            }
            i = i + 1;
        }
        let ghost rsv = rs@;
        let mut out: Vec<ReceiptInfo> = Vec::new();
        let mut j: usize = 0;
        while j < rs.len()
            invariant
                j <= rs@.len(),
                rs@ == rsv,
                out@ =~= rs@.subrange(0, j as int),
            decreases rs@.len() - j,
        {
            out.push(rs[j]);
            j = j + 1;
        }
        proof {
            assert(out@ =~= rs@);
        }
        let ghost stored = rs;
        self.receipts.insert(hash, rs);
        proof {
            assert(cache_step(
                old(self).receipts_model(),
                self.receipts_model(),
                hash@,
                out@,
            ));
            lemma_retains_map_values(
                old(self).receipts.model(),
                self.receipts.model(),
                hash@,
                stored,
                old(self).receipts.size(),
                self.receipts.size(),
                |v2: Vec<ReceiptInfo>| v2@,
            );
            assert(old(self).receipts.model().map_values(|v2: Vec<ReceiptInfo>| v2@) =~= old(
                self,
            ).receipts_model());
            assert(self.receipts.model().map_values(|v2: Vec<ReceiptInfo>| v2@)
                =~= self.receipts_model());
        }
        Ok(out)
    }

    /// Consults the block-and-transactions cache.
    pub fn cached_block_and_txs_by_hash(&self, hash: &Vec<u8>) -> (r: Option<
        &(BlockInfo, Vec<Vec<u8>>),
    >)
        requires
            self.wf(),
        ensures
            match r {
                Some(p) => self.blocks_model().dom().contains(hash@) && self.blocks_model()[
                    hash@
                ] == (p.0@, p.1.deep_view()),
                None => !self.blocks_model().dom().contains(hash@),
            },
    {
        self.blocks.get(hash)
    }

    /// Decodes a raw `debug_getRawBlock` response and admits the block
    /// summary and encoded transactions under the requested hash.
    #[verifier::loop_isolation(false)]
    #[verifier::rlimit(50)]
    pub fn admit_raw_block(&mut self, hash: &Vec<u8>, raw: &Vec<u8>) -> (r: Result<
        (BlockInfo, Vec<Vec<u8>>),
        ProviderError,
    >)
        requires
            old(self).wf(),
        ensures
            final(self).wf(),
            final(self).headers_model() == old(self).headers_model(),
            final(self).block_infos_model() == old(self).block_infos_model(),
            final(self).receipts_model() == old(self).receipts_model(),
            final(self).headers_size() == old(self).headers_size(),
            final(self).block_infos_size() == old(self).block_infos_size(),
            final(self).receipts_size() == old(self).receipts_size(),
            match r {
                Ok(p) => block_decode_of(raw@) == Some((p.0@, p.1.deep_view())) && p.0.wf()
                    && cache_step(
                    old(self).blocks_model(),
                    final(self).blocks_model(),
                    hash@,
                    (p.0@, p.1.deep_view()),
                ) && cache_retains(
                    old(self).blocks_model(),
                    final(self).blocks_model(),
                    hash@,
                    (p.0@, p.1.deep_view()),
                    old(self).blocks_size(),
                    final(self).blocks_size(),
                ),
                Err(e) => block_decode_of(raw@) is None && e == ProviderError::Decode(
                    DecodeError::Malformed,
                ) && final(self).blocks_model() == old(self).blocks_model()
                    && final(self).blocks_size() == old(self).blocks_size(),
            },
    {
        match decode_block_raw(raw) {
            Ok(p) => {
                let info = p.0.dup();
                let mut txs: Vec<Vec<u8>> = Vec::new();
                let mut i: usize = 0;
                while i < p.1.len()
                    invariant
                        i <= p.1@.len(),
                        txs@.len() == i,
                        forall|j: int| 0 <= j < i ==> txs@[j]@ == p.1@[j]@,
                    decreases p.1@.len() - i,
                {
                    txs.push(crate::byteops::copy_bytes(&p.1[i]));
                    i = i + 1;
                }
                proof {
                    assert(txs.deep_view() =~= p.1.deep_view());
                }
                let ghost stored = p;
                self.blocks.insert(hash, p);
                proof {
                    assert(cache_step(
                        old(self).blocks_model(),
                        self.blocks_model(),
                        hash@,
                        (info@, txs.deep_view()),
                    ));
                    lemma_retains_map_values(
                        old(self).blocks.model(),
                        self.blocks.model(),
                        hash@,
                        stored,
                        old(self).blocks.size(),
                        self.blocks.size(),
                        |p2: (BlockInfo, Vec<Vec<u8>>)| (p2.0@, p2.1.deep_view()),
                    );
                    assert(old(self).blocks.model().map_values(
                        |p2: (BlockInfo, Vec<Vec<u8>>)| (p2.0@, p2.1.deep_view()),
                    ) =~= old(self).blocks_model());
                    assert(self.blocks.model().map_values(
                        |p2: (BlockInfo, Vec<Vec<u8>>)| (p2.0@, p2.1.deep_view()),
                    ) =~= self.blocks_model());
                }
                Ok((info, txs))
            },
            Err(_) => Err(ProviderError::Decode(DecodeError::Malformed)),
        }
    }

    /// Reads an `eth_chainId` response: the chain's id as a hex
    /// quantity.
    pub fn chain_id(&self, response: &Vec<u8>) -> (r: Result<u64, DecodeError>)
        ensures
            r == spec_parse_quantity(response@),
    {
        parse_quantity(response)
    }

    /// The header cache is consistent with an upstream source: every
    /// cached header is the decode of the source's bytes for that hash.
    pub open spec fn headers_consistent_with(&self, source: Map<Seq<u8>, Seq<u8>>) -> bool {
        forall|k: Seq<u8>| #[trigger] self.headers_model().dom().contains(k) ==>
            source.dom().contains(k) && header_decode_of(source[k]) == Some(
                self.headers_model()[k],
            )
    }

    /// The receipts cache is consistent with an upstream source: every
    /// cached list is the envelope-tolerant decode of the source's
    /// responses for that hash.
    pub open spec fn receipts_consistent_with(
        &self,
        source: Map<Seq<u8>, Seq<Seq<u8>>>,
    ) -> bool {
        forall|k: Seq<u8>| #[trigger] self.receipts_model().dom().contains(k) ==>
            source.dom().contains(k) && receipts_decode_all(source[k]) == Some(
                self.receipts_model()[k],
            )
    }
}

/// The envelope-tolerant decode of a whole receipts response, if every
/// envelope decodes.
pub open spec fn receipts_decode_all(raws: Seq<Seq<u8>>) -> Option<Seq<ReceiptInfo>> {
    if forall|i: int| 0 <= i < raws.len() ==> receipt_decode_of(
        strip_type_byte(#[trigger] raws[i]),
    ) is Some {
        Some(Seq::new(raws.len(), |i: int| receipt_decode_of(strip_type_byte(raws[i]))->0))
    } else {
        None
    }
}

/// Freshness of the header cache: admitting the source's own bytes for a
/// hash keeps every cached header equal to the decode of the source's
/// bytes for its hash, so a later cache hit can never answer differently
/// from the upstream response for the same argument.
pub proof fn lemma_header_admission_preserves_consistency(
    pre: ChainProvider,
    post: ChainProvider,
    source: Map<Seq<u8>, Seq<u8>>,
    hash: Seq<u8>,
    raw: Seq<u8>,
    h: HeaderInfoV,
)
    requires
        pre.headers_consistent_with(source),
        cache_step(pre.headers_model(), post.headers_model(), hash, h),
        source.dom().contains(hash),
        source[hash] == raw,
        header_decode_of(raw) == Some(h),
    ensures
        post.headers_consistent_with(source),
{
}

impl ChainProvider {
    /// The block-summary cache is consistent with an upstream source:
    /// every cached summary carries the fields decoded from the source's
    /// bytes for its number key, and sits under its own number.
    pub open spec fn block_infos_consistent_with(&self, source: Map<Seq<u8>, Seq<u8>>) -> bool {
        forall|k: Seq<u8>| #[trigger] self.block_infos_model().dom().contains(k) ==>
            source.dom().contains(k) && (header_decode_of(source[k]) matches Some(hv)
                && self.block_infos_model()[k].hash == hv.hash && self.block_infos_model()[
                k
            ].parent_hash == hv.parent_hash && self.block_infos_model()[k].timestamp
                == hv.timestamp) && k == be64_bytes(self.block_infos_model()[k].number)
    }

    /// The block-and-transactions cache is consistent with an upstream
    /// source: every cached pair is the decode of the source's bytes for
    /// that hash.
    pub open spec fn blocks_consistent_with(&self, source: Map<Seq<u8>, Seq<u8>>) -> bool {
        forall|k: Seq<u8>| #[trigger] self.blocks_model().dom().contains(k) ==>
            source.dom().contains(k) && block_decode_of(source[k]) == Some(
                self.blocks_model()[k],
            )
    }
}

/// Freshness of the block-summary cache, as for headers: admitting the
/// source's own bytes for a number keeps every cached summary equal to
/// the decode of the source's bytes for its number.
pub proof fn lemma_block_info_admission_preserves_consistency(
    pre: ChainProvider,
    post: ChainProvider,
    source: Map<Seq<u8>, Seq<u8>>,
    number: u64,
    raw: Seq<u8>,
    b: BlockInfoV,
)
    requires
        pre.block_infos_consistent_with(source),
        cache_step(pre.block_infos_model(), post.block_infos_model(), be64_bytes(number), b),
        source.dom().contains(be64_bytes(number)),
        source[be64_bytes(number)] == raw,
        header_decode_of(raw) matches Some(hv) && b.hash == hv.hash && b.parent_hash
            == hv.parent_hash && b.timestamp == hv.timestamp,
        b.number == number,
    ensures
        post.block_infos_consistent_with(source),
{
}

/// Freshness of the block-and-transactions cache, as for headers.
pub proof fn lemma_block_admission_preserves_consistency(
    pre: ChainProvider,
    post: ChainProvider,
    source: Map<Seq<u8>, Seq<u8>>,
    hash: Seq<u8>,
    raw: Seq<u8>,
    p: (BlockInfoV, Seq<Seq<u8>>),
)
    requires
        pre.blocks_consistent_with(source),
        cache_step(pre.blocks_model(), post.blocks_model(), hash, p),
        source.dom().contains(hash),
        source[hash] == raw,
        block_decode_of(raw) == Some(p),
    ensures
        post.blocks_consistent_with(source),
{
}

/// Freshness of the receipts cache, as for headers: admitting the
/// source's own responses keeps every cached list equal to the decode
/// of the source's responses for its hash.
pub proof fn lemma_receipts_admission_preserves_consistency(
    pre: ChainProvider,
    post: ChainProvider,
    source: Map<Seq<u8>, Seq<Seq<u8>>>,
    hash: Seq<u8>,
    raws: Seq<Seq<u8>>,
    rs: Seq<ReceiptInfo>,
)
    requires
        pre.receipts_consistent_with(source),
        cache_step(pre.receipts_model(), post.receipts_model(), hash, rs),
        source.dom().contains(hash),
        source[hash] == raws,
        rs.len() == raws.len(),
        forall|i: int|
            0 <= i < raws.len() ==> receipt_decode_of(strip_type_byte(#[trigger] raws[i]))
                == Some(rs[i]),
    ensures
        post.receipts_consistent_with(source),
{
    assert(receipts_decode_all(raws) =~= Some(rs)) by {
        assert(Seq::new(
            raws.len(),
            |i: int| receipt_decode_of(strip_type_byte(raws[i]))->0,
        ) =~= rs);
    }
}

/// Determinism of admission, as the fetch path relies on it: what an
/// admission returns is a function of the raw response alone, whatever
/// either cache held at the time.
pub proof fn lemma_admission_deterministic(raw: Seq<u8>, h1: HeaderInfoV, h2: HeaderInfoV)
    requires
        header_decode_of(raw) == Some(h1),
        header_decode_of(raw) == Some(h2),
    ensures
        h1 == h2,
{
}

/// A consistent cache hit equals the upstream decode for that argument.
pub proof fn lemma_consistent_header_lookup(
    p: ChainProvider,
    source: Map<Seq<u8>, Seq<u8>>,
    hash: Seq<u8>,
)
    requires
        p.headers_consistent_with(source),
        p.headers_model().dom().contains(hash),
    ensures
        source.dom().contains(hash),
        header_decode_of(source[hash]) == Some(p.headers_model()[hash]),
{
}

} // verus!
