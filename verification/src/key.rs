//! Typed 32-byte preimage keys: one tag byte followed by 31 digest bytes.
//!
//! A key commits to the bytes it identifies: for `Keccak256` and `Sha256`
//! keys the 31 digest bytes are the tail of the value's digest under that
//! scheme. `Local` keys index host-supplied constants and carry no
//! cryptographic constraint; `Blob` and `Precompile` keys commit to other
//! request data (a blob index, a precompile call), not to the stored value
//! alone, so the value-level integrity relation does not constrain them.

use vstd::prelude::*;
use crate::byteops::copy_bytes;
use crate::crypto::{keccak256_of, sha256_of};
use crate::errors::KeyError;

verus! {

/// The recognized key-type tags.
#[derive(PartialEq, Eq, Structural, Clone, Copy, Debug)]
pub enum KeyType {
    /// Host-supplied constants, indexed by a small integer.
    Local,
    /// Arbitrary bytes whose keccak-256 matches the key.
    Keccak256,
    /// A beacon-chain blob sidecar, committed to by sha-256.
    Sha256,
    /// A single field element of a KZG blob.
    Blob,
    /// An accelerated precompile input/output pair.
    Precompile,
}

/// The wire tag of each key type.
pub open spec fn key_type_tag(t: KeyType) -> u8 {
    match t {
        KeyType::Keccak256 => 1,
        KeyType::Local => 2,
        KeyType::Sha256 => 3,
        KeyType::Blob => 4,
        KeyType::Precompile => 5,
    }
}

/// The key type a wire tag denotes, if any.
pub open spec fn key_type_of_tag(b: u8) -> Option<KeyType> {
    if b == 1 {
        Some(KeyType::Keccak256)
    } else if b == 2 {
        Some(KeyType::Local)
    } else if b == 3 {
        Some(KeyType::Sha256)
    } else if b == 4 {
        Some(KeyType::Blob)
    } else if b == 5 {
        Some(KeyType::Precompile)
    } else {
        None
    }
}

/// Tag then type then tag is the identity.
pub proof fn lemma_key_type_tag_roundtrip(t: KeyType)
    ensures
        key_type_of_tag(key_type_tag(t)) == Some(t),
{
}

impl KeyType {
    /// The wire tag of this key type.
    pub fn tag(&self) -> (r: u8)
        ensures
            r == key_type_tag(*self),
    {
        match self {
            KeyType::Keccak256 => 1,
            KeyType::Local => 2,
            KeyType::Sha256 => 3,
            KeyType::Blob => 4,
            KeyType::Precompile => 5,
        }
    }

    /// Reads a wire tag back into a key type.
    pub fn from_tag(b: u8) -> (r: Option<KeyType>)
        ensures
            r == key_type_of_tag(b),
    {
        if b == 1 {
            Some(KeyType::Keccak256)
        } else if b == 2 {
            Some(KeyType::Local)
        } else if b == 3 {
            Some(KeyType::Sha256)
        } else if b == 4 {
            Some(KeyType::Blob)
        } else if b == 5 {
            Some(KeyType::Precompile)
        } else {
            None
        }
    }
}

/// A typed preimage key: a key type and the 31 digest bytes that follow
/// the tag on the wire.
pub struct PreimageKey {
    pub key_type: KeyType,
    pub digest: Vec<u8>,
}

/// Ghost image of a [`PreimageKey`].
#[verifier::ext_equal]
pub ghost struct PreimageKeyV {
    pub key_type: KeyType,
    pub digest: Seq<u8>,
}

impl View for PreimageKey {
    type V = PreimageKeyV;

    open spec fn view(&self) -> PreimageKeyV {
        PreimageKeyV { key_type: self.key_type, digest: self.digest@ }
    }
}

/// The 32-byte wire form of a key: tag byte then 31 digest bytes.
pub open spec fn encoded_key(t: KeyType, digest: Seq<u8>) -> Seq<u8> {
    seq![key_type_tag(t)] + digest
}

/// The 31-byte truncation of a 32-byte digest: its first byte is dropped
/// to make room for the tag.
pub open spec fn truncated(digest32: Seq<u8>) -> Seq<u8> {
    digest32.subrange(1, digest32.len() as int)
}

impl PreimageKey {
    /// The digest part is exactly 31 bytes.
    pub open spec fn wf(&self) -> bool {
        self.digest@.len() == 31
    }

    /// Returns a fresh copy with the same view.
    pub fn dup(&self) -> (r: PreimageKey)
        ensures
            r@ == self@,
            r.wf() == self.wf(),
    {
        PreimageKey { key_type: self.key_type, digest: copy_bytes(&self.digest) }
    }

    /// Builds the key of type `t` for a full 32-byte digest, truncating
    /// the digest's first byte.
    pub fn from_digest(t: KeyType, digest32: &Vec<u8>) -> (r: PreimageKey)
        requires
            digest32@.len() == 32,
        ensures
            r@.key_type == t,
            r@.digest == truncated(digest32@),
            r.wf(),
    {
        let mut d: Vec<u8> = Vec::new();
        let mut i: usize = 1;
        while i < 32
            invariant
                1 <= i <= 32,
                digest32@.len() == 32,
                d@ =~= digest32@.subrange(1, i as int),
            decreases 32 - i,
        {
            d.push(digest32[i]);
            i = i + 1;
        }
        proof {
            assert(d@ =~= truncated(digest32@));
        }
        PreimageKey { key_type: t, digest: d }
    }

    /// Encodes the key into its 32-byte wire form.
    pub fn encode(&self) -> (r: Vec<u8>)
        requires
            self.wf(),
        ensures
            r@ == encoded_key(self@.key_type, self@.digest),
            r@.len() == 32,
    {
        let mut out: Vec<u8> = Vec::new();
        out.push(self.key_type.tag());
        let mut i: usize = 0;
        while i < self.digest.len()
            invariant
                i <= self.digest@.len(),
                out@ =~= seq![key_type_tag(self.key_type)] + self.digest@.subrange(0, i as int),
            decreases self.digest@.len() - i,
        {
            out.push(self.digest[i]);
            i = i + 1;
        }
        proof {
            assert(out@ =~= encoded_key(self@.key_type, self@.digest));
        }
        out
    }

    /// Reads a 32-byte wire key. Fails if and only if the length is not
    /// 32 or the tag is unrecognized.
    pub fn decode(bytes: &Vec<u8>) -> (r: Result<PreimageKey, KeyError>)
        ensures
            match r {
                Ok(k) => bytes@.len() == 32 && key_type_of_tag(bytes@[0]) == Some(k@.key_type)
                    && k@.digest == bytes@.subrange(1, 32) && k.wf(),
                Err(KeyError::BadLength) => bytes@.len() != 32,
                Err(KeyError::UnknownTag) => bytes@.len() == 32 && key_type_of_tag(bytes@[0])
                    is None,
            },
    {
        if bytes.len() != 32 {
            return Err(KeyError::BadLength);
        }
        match KeyType::from_tag(bytes[0]) {
            None => Err(KeyError::UnknownTag),
            Some(t) => {
                let mut d: Vec<u8> = Vec::new();
                let mut i: usize = 1;
                while i < 32
                    invariant
                        1 <= i <= 32,
                        bytes@.len() == 32,
                        d@ =~= bytes@.subrange(1, i as int),
                    decreases 32 - i,
                {
                    d.push(bytes[i]);
                    i = i + 1;
                }
                Ok(PreimageKey { key_type: t, digest: d })
            },
        }
    }
}

/// Decoding inverts encoding: a well-formed key read back from its wire
/// form is the same key.
pub proof fn lemma_key_codec_roundtrip(t: KeyType, digest: Seq<u8>)
    requires
        digest.len() == 31,
    ensures
        encoded_key(t, digest).len() == 32,
        key_type_of_tag(encoded_key(t, digest)[0]) == Some(t),
        encoded_key(t, digest).subrange(1, 32) == digest,
{
    lemma_key_type_tag_roundtrip(t);
    assert(encoded_key(t, digest).subrange(1, 32) =~= digest);
}

/// The value-level integrity relation between a key and a stored value:
/// for the two hash-committed schemes the key's digest bytes are the
/// truncated digest of the value; `Local` keys are trusted inputs, and
/// `Blob` and `Precompile` keys commit to request data outside the value.
pub open spec fn key_value_matches(k: PreimageKeyV, value: Seq<u8>) -> bool {
    match k.key_type {
        KeyType::Keccak256 => k.digest == truncated(keccak256_of(value)),
        KeyType::Sha256 => k.digest == truncated(sha256_of(value)),
        KeyType::Local => true,
        KeyType::Blob => true,
        KeyType::Precompile => true,
    }
}

} // verus!
