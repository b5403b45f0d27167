//! The preimage server's request handling: the hint channel and the
//! oracle channel, each a deterministic function from the bytes read to
//! the bytes written back.
//!
//! The pipe loops themselves — reading frames off file descriptors,
//! writing responses, racing the two channels — are plumbing and live
//! outside; everything the server decides is here and verified.

use vstd::prelude::*;
use crate::crypto::{keccak256_of, sha256_of};
use crate::errors::{KeyError, OracleError};
use crate::fetcher::Fetcher;
use crate::key::{key_type_of_tag, key_value_matches, truncated, KeyType, PreimageKeyV};
use crate::kv::{kv_integrity, wire_key_value_matches, KeyValueStore};
use crate::wire::{drain_hint_frames, encode_oracle_response, hint_frames, ACK_BYTE};

verus! {

/// Serves every complete hint frame in `buf`: each frame's hint is
/// handed to the fetcher (a bad hint is logged by the caller and
/// dropped: the channel continues), and each complete frame is
/// acknowledged. The ack count equals the number of complete frames
/// read; the store is never touched.
pub fn process_hint_channel<KV: KeyValueStore>(fetcher: &mut Fetcher<KV>, buf: &Vec<u8>) -> (acks:
    Vec<u8>)
    requires
        old(fetcher).wf(),
    ensures
        final(fetcher).wf(),
        final(fetcher).kv == old(fetcher).kv,
        acks@.len() == hint_frames(buf@).len(),
        forall|i: int| 0 <= i < acks@.len() ==> acks@[i] == ACK_BYTE,
        hint_frames(buf@).len() == 0 ==> final(fetcher).last_hint == old(fetcher).last_hint,
        hint_frames(buf@).len() > 0 ==> held_hint_matches(
            final(fetcher).last_hint,
            hint_frames(buf@).last(),
        ),
{
    let (frames, acks) = drain_hint_frames(buf);
    let mut i: usize = 0;
    while i < frames.len()
        invariant
            old(fetcher).wf(),
            fetcher.wf(),
            fetcher.kv == old(fetcher).kv,
            i <= frames@.len(),
            frames.deep_view() == hint_frames(buf@),
            i == 0 ==> fetcher.last_hint == old(fetcher).last_hint,
            i > 0 ==> held_hint_matches(fetcher.last_hint, frames.deep_view()[i - 1]),
        decreases frames@.len() - i,
    {
        let _outcome = fetcher.hint(&frames[i]);
        proof {
            assert(frames@[i as int]@ == frames.deep_view()[i as int]);
        }
        i = i + 1;
    }
    acks
}

/// After one hint string is served, the fetcher holds its parse: the
/// hint itself when it is well formed, nothing when it is not.
pub open spec fn held_hint_matches(held: Option<crate::hint::Hint>, s: Seq<u8>) -> bool {
    match crate::hint::spec_parse_hint(s) {
        Ok(tp) => match held {
            Some(h) => h@.hint_type == tp.0 && h@.payload == tp.1,
            None => false,
        },
        Err(e) => held is None,
    }
}

/// Looks one oracle request up: the 32-byte key must parse, and the
/// store must hold it. The served value is exactly the store's binding;
/// a missing key fails this one read only.
pub fn lookup_preimage<KV: KeyValueStore>(kv: &KV, key_bytes: &Vec<u8>) -> (r: Result<
    Vec<u8>,
    OracleError,
>)
    requires
        kv.wf(),
    ensures
        match r {
            Ok(v) => key_bytes@.len() == 32 && key_type_of_tag(key_bytes@[0]) is Some
                && kv.model().dom().contains(key_bytes@) && v@ == kv.model()[key_bytes@],
            Err(OracleError::Key(e)) => match e {
                KeyError::BadLength => key_bytes@.len() != 32,
                KeyError::UnknownTag => key_bytes@.len() == 32 && key_type_of_tag(
                    key_bytes@[0],
                ) is None,
            },
            Err(OracleError::MissingPreimage) => key_bytes@.len() == 32 && key_type_of_tag(
                key_bytes@[0],
            ) is Some && !kv.model().dom().contains(key_bytes@),
        },
{
    match crate::key::PreimageKey::decode(key_bytes) {
        Err(e) => Err(OracleError::Key(e)),
        Ok(_) => match kv.get(key_bytes) {
            Some(v) => Ok(v),
            None => Err(OracleError::MissingPreimage),
        },
    }
}

/// Serves one oracle request end to end: looks the key up and frames
/// the value as a length-prefixed response.
pub fn serve_oracle_request<KV: KeyValueStore>(kv: &KV, key_bytes: &Vec<u8>) -> (r: Result<
    Vec<u8>,
    OracleError,
>)
    requires
        kv.wf(),
    ensures
        match r {
            Ok(frame) => kv.model().dom().contains(key_bytes@) && frame@.len() == 8
                + kv.model()[key_bytes@].len() && crate::byteops::be64_val(
                frame@.subrange(0, 8),
            ) == kv.model()[key_bytes@].len() && frame@.subrange(8, frame@.len() as int)
                == kv.model()[key_bytes@],
            Err(e) => lookup_preimage_fails(kv.model(), key_bytes@, e),
        },
{
    match lookup_preimage(kv, key_bytes) {
        Ok(v) => Ok(encode_oracle_response(&v)),
        Err(e) => Err(e),
    }
}

/// When an oracle lookup fails, and how.
pub open spec fn lookup_preimage_fails(
    m: Map<Seq<u8>, Seq<u8>>,
    key: Seq<u8>,
    e: OracleError,
) -> bool {
    match e {
        OracleError::Key(KeyError::BadLength) => key.len() != 32,
        OracleError::Key(KeyError::UnknownTag) => key.len() == 32 && key_type_of_tag(
            key[0],
        ) is None,
        OracleError::MissingPreimage => key.len() == 32 && key_type_of_tag(key[0]) is Some
            && !m.dom().contains(key),
    }
}

/// Oracle integrity: any value the channel serves from an integral
/// store for a hash-committed key matches the key's digest bytes — a
/// `Keccak256` key's tail is the truncated keccak-256 of the value, a
/// `Sha256` key's tail the truncated sha-256. `Local` keys are trusted
/// inputs; `Blob` and `Precompile` keys commit to request data outside
/// the stored value.
pub proof fn lemma_served_preimage_integrity(m: Map<Seq<u8>, Seq<u8>>, key: Seq<u8>)
    requires
        kv_integrity(m),
        m.dom().contains(key),
    ensures
        key.len() == 32,
        key_type_of_tag(key[0]) is Some,
        key_value_matches(
            PreimageKeyV { key_type: key_type_of_tag(key[0])->0, digest: key.subrange(1, 32) },
            m[key],
        ),
        key_type_of_tag(key[0]) == Some(KeyType::Keccak256) ==> key.subrange(1, 32)
            == truncated(keccak256_of(m[key])),
        key_type_of_tag(key[0]) == Some(KeyType::Sha256) ==> key.subrange(1, 32) == truncated(
            sha256_of(m[key]),
        ),
{
    assert(wire_key_value_matches(key, m[key]));
}

} // verus!
