//! Error taxonomy: transport and decode failures are reported distinctly,
//! missing preimages are fatal to one read only, and a stage's EOF is the
//! lone recoverable stage error.

use vstd::prelude::*;

verus! {

/// Why a 32-byte preimage key could not be read.
#[derive(PartialEq, Eq, Structural, Clone, Copy, Debug)]
pub enum KeyError {
    /// The encoded key is not exactly 32 bytes long.
    BadLength,
    /// The first byte is not a recognized key-type tag.
    UnknownTag,
}

/// Why a hint string was rejected.
#[derive(PartialEq, Eq, Structural, Clone, Copy, Debug)]
pub enum HintError {
    /// No space separates the hint type from its payload.
    MissingSeparator,
    /// The hint type is not in the closed vocabulary.
    UnknownType,
    /// The payload is not `0x` followed by an even hex-digit string.
    MalformedPayload,
    /// The payload decodes, but to a length the hint type does not take.
    BadPayloadLength,
}

/// Why a checked key-value write was refused.
#[derive(PartialEq, Eq, Structural, Clone, Copy, Debug)]
pub enum KvError {
    /// The digest of the value does not match the key's digest bytes.
    DigestMismatch,
}

/// Why an oracle-channel request failed.
#[derive(PartialEq, Eq, Structural, Clone, Copy, Debug)]
pub enum OracleError {
    /// The request frame is not a well-formed key.
    Key(KeyError),
    /// The key is absent from the store and could not be fetched.
    MissingPreimage,
}

/// Bytes did not parse as the expected chain type.
#[derive(PartialEq, Eq, Structural, Clone, Copy, Debug)]
pub enum DecodeError {
    /// RLP or envelope decoding failed.
    Malformed,
    /// The decoded value is missing a part this crate requires.
    MissingField,
}

/// Why a chain-provider operation failed.
#[derive(PartialEq, Eq, Structural, Clone, Copy, Debug)]
pub enum ProviderError {
    /// The upstream endpoint failed or the value is not available.
    Transport,
    /// The raw response did not decode.
    Decode(DecodeError),
}

/// A derivation stage's report when it cannot yield attributes.
#[derive(PartialEq, Eq, Structural, Clone, Copy, Debug)]
pub enum StageError {
    /// The stage drained its current input; recoverable by advancing the
    /// L1 origin.
    Eof,
    /// A transient failure; the caller may retry.
    Temporary,
    /// A non-recoverable failure; the derivation run must be reset.
    Fatal,
}

/// Why a pipeline reset failed.
#[derive(PartialEq, Eq, Structural, Clone, Copy, Debug)]
pub enum ResetError {
    /// The system config at the reset height could not be fetched.
    Provider(ProviderError),
    /// The stage stack refused the reset with a non-EOF error.
    Stage(StageError),
}

} // verus!
