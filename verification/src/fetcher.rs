//! The fetcher: given a hint and the bytes the hint promised, it writes
//! the key-value entries the client will ask for, and nothing else.
//!
//! Fetching the bytes themselves is network I/O and happens outside;
//! what is verified here is the accounting: which key each hint type
//! materializes, that a hash-committed entry is written only when its
//! digest matches, and that every write preserves the store's integrity
//! invariant.

use vstd::prelude::*;
use crate::byteops::bytes_eq;
use crate::crypto::{keccak256, keccak256_of, sha256, sha256_of};
use crate::errors::{HintError, KvError};
use crate::hint::{parse_hint, payload_len_ok, spec_parse_hint, Hint, HintType, HintV};
use crate::key::{encoded_key, truncated, KeyType, PreimageKey};
use crate::kv::{kv_integrity, wire_key_value_matches, KeyValueStore};

verus! {

/// The key type a hint's materialized entry is stored under: blob
/// sidecars are committed by sha-256, precompile results by the keccak
/// of the call, everything else by the keccak of the value.
pub open spec fn hint_key_type(t: HintType) -> KeyType {
    match t {
        HintType::L1Blob => KeyType::Sha256,
        HintType::L1Precompile => KeyType::Precompile,
        _ => KeyType::Keccak256,
    }
}

/// A parsed hint's payload has a length its type takes.
pub open spec fn hint_payload_wf(h: HintV) -> bool {
    payload_len_ok(h.hint_type, h.payload.len())
}

/// The fetcher: the store it writes into and the hint it last accepted.
pub struct Fetcher<KV: KeyValueStore> {
    /// The backing preimage store.
    pub kv: KV,
    /// The hint the next prefetch will materialize, if any.
    pub last_hint: Option<Hint>,
}

impl<KV: KeyValueStore> Fetcher<KV> {
    /// The store is well formed; any held hint has a fitting payload.
    pub open spec fn wf(&self) -> bool {
        &&& self.kv.wf()
        &&& match self.last_hint {
            Some(h) => hint_payload_wf(h@),
            None => true,
        }
    }

    /// Creates a fetcher over a store, with no hint yet.
    pub fn new(kv: KV) -> (r: Fetcher<KV>)
        requires
            kv.wf(),
        ensures
            r.wf(),
            r.kv == kv,
            r.last_hint is None,
    {
        Fetcher { kv, last_hint: None }
    }

    /// Accepts one hint string. A malformed or unknown hint is refused
    /// and clears the held hint; the store is never touched.
    pub fn hint(&mut self, s: &Vec<u8>) -> (r: Result<(), HintError>)
        requires
            old(self).wf(),
        ensures
            final(self).wf(),
            final(self).kv == old(self).kv,
            match r {
                Ok(u) => spec_parse_hint(s@) is Ok && (final(self).last_hint matches Some(h)
                    && spec_parse_hint(s@) == Ok::<(HintType, Seq<u8>), HintError>(
                    (h@.hint_type, h@.payload),
                )),
                Err(e) => spec_parse_hint(s@) == Err::<(HintType, Seq<u8>), HintError>(e)
                    && final(self).last_hint is None,
            },
    {
        match parse_hint(s) {
            Ok(h) => {
                self.last_hint = Some(h);
                Ok(())
            },
            Err(e) => {
                self.last_hint = None;
                Err(e)
            },
        }
    }

    /// Materializes the held hint from the bytes it promised: computes
    /// each entry's key under the hint's digest scheme and refuses a
    /// hash-committed entry whose digest does not match the hint. Most
    /// hints write one entry; a blob hint writes the sha-256 sidecar
    /// entry and the per-element `Blob` key beside it. Preserves the
    /// store's integrity.
    pub fn prefetch_with(&mut self, data: &Vec<u8>) -> (r: Result<(), KvError>)
        requires
            old(self).wf(),
        ensures
            final(self).wf(),
            final(self).last_hint == old(self).last_hint,
            kv_integrity(old(self).kv.model()) ==> kv_integrity(final(self).kv.model()),
            match old(self).last_hint {
                None => r is Ok && final(self).kv.model() == old(self).kv.model(),
                Some(h) => match hint_key_type(h@.hint_type) {
                    KeyType::Keccak256 => match r {
                        Ok(u) => keccak256_of(data@) == h@.payload && final(self).kv.model()
                            == old(self).kv.model().insert(
                            encoded_key(KeyType::Keccak256, truncated(keccak256_of(data@))),
                            data@,
                        ),
                        Err(e) => keccak256_of(data@) != h@.payload && final(self).kv.model()
                            == old(self).kv.model() && e == KvError::DigestMismatch,
                    },
                    KeyType::Sha256 => r is Ok && final(self).kv.model() == old(
                        self,
                    ).kv.model().insert(
                        encoded_key(KeyType::Sha256, truncated(sha256_of(data@))),
                        data@,
                    ).insert(
                        encoded_key(KeyType::Blob, truncated(keccak256_of(h@.payload))),
                        data@,
                    ),
                    KeyType::Precompile => r is Ok && final(self).kv.model() == old(
                        self,
                    ).kv.model().insert(
                        encoded_key(KeyType::Precompile, truncated(keccak256_of(h@.payload))),
                        data@,
                    ),
                    _ => false,
                },
            },
    {
        let ghost old_model = self.kv.model();
        match &self.last_hint {
            None => Ok(()),
            Some(h) => {
                let key: PreimageKey = match h.hint_type {
                    HintType::L1Blob => {
                        // The sidecar is committed by its own sha-256; the
                        // per-element key commits to the commitment-and-index
                        // payload instead, so it carries no value constraint.
                        let element_digest = keccak256(&h.payload);
                        let element_key = PreimageKey::from_digest(
                            KeyType::Blob,
                            &element_digest,
                        );
                        let element_encoded = element_key.encode();
                        let ghost element_keyv = element_encoded@;
                        let digest = sha256(data);
                        let sidecar_key = PreimageKey::from_digest(KeyType::Sha256, &digest);
                        let sidecar_encoded = sidecar_key.encode();
                        let ghost sidecar_keyv = sidecar_encoded@;
                        self.kv.set(&sidecar_encoded, data);
                        self.kv.set(&element_encoded, data);
                        proof {
                            crate::key::lemma_key_codec_roundtrip(
                                sidecar_key@.key_type,
                                sidecar_key@.digest,
                            );
                            crate::key::lemma_key_codec_roundtrip(
                                element_key@.key_type,
                                element_key@.digest,
                            );
                            assert(wire_key_value_matches(sidecar_keyv, data@));
                            assert(wire_key_value_matches(element_keyv, data@));
                            if kv_integrity(old_model) {
                                assert forall|k2: Seq<u8>| #[trigger] self.kv.model(
                                ).dom().contains(k2) implies wire_key_value_matches(
                                    k2,
                                    self.kv.model()[k2],
                                ) by {
                                    if k2 != sidecar_keyv && k2 != element_keyv {
                                        assert(old_model.dom().contains(k2));
                                    }
                                }
                            }
                        }
                        return Ok(());
                    },
                    HintType::L1Precompile => {
                        let digest = keccak256(&h.payload);
                        PreimageKey::from_digest(KeyType::Precompile, &digest)
                    },
                    _ => {
                        let digest = keccak256(data);
                        if !bytes_eq(&digest, &h.payload) {
                            return Err(KvError::DigestMismatch);
                        }
                        PreimageKey::from_digest(KeyType::Keccak256, &digest)
                    },
                };
                let encoded = key.encode();
                let ghost keyv = encoded@;
                self.kv.set(&encoded, data);
                proof {
                    crate::key::lemma_key_codec_roundtrip(key@.key_type, key@.digest);
                    assert(wire_key_value_matches(keyv, data@));
                    if kv_integrity(old_model) {
                        assert forall|k2: Seq<u8>| #[trigger] self.kv.model().dom().contains(
                            k2,
                        ) implies wire_key_value_matches(k2, self.kv.model()[k2]) by {
                            if k2 != keyv {
                                assert(old_model.dom().contains(k2));
                            }
                        }
                    }
                }
                Ok(())
            },
        }
    }
}

} // verus!
