//! The hint vocabulary and its parser.
//!
//! A hint is an advisory UTF-8 string `<type> <hex-payload>`: a keyword
//! from a closed set, one space, then `0x` and an even hexadecimal digit
//! string. A hint never returns data; it names the preimages the host
//! should materialize before the client asks for them.

use vstd::prelude::*;
use vstd::string::StringSliceAdditionalSpecFns;
use crate::byteops::{all_hex_digits, bytes_eq_slice, copy_range, hex_bytes, hex_decode_from};
use crate::errors::HintError;

verus! {

/// The closed set of hint types.
#[derive(PartialEq, Eq, Structural, Clone, Copy, Debug)]
pub enum HintType {
    /// An L1 block header, by hash.
    L1BlockHeader,
    /// An L1 block's transactions, by block hash.
    L1Transactions,
    /// An L1 block's receipts, by block hash.
    L1Receipts,
    /// An accelerated precompile call: address then input.
    L1Precompile,
    /// A blob: a 48-byte KZG commitment then an 8-byte index.
    L1Blob,
    /// An L2 block header, by hash.
    L2BlockHeader,
    /// An L2 block's transactions, by block hash.
    L2Transactions,
    /// L2 contract bytecode, by code hash.
    L2Code,
    /// An L2 state trie node, by hash.
    L2StateNode,
    /// An L2 output preimage, by output root.
    L2Output,
}

/// The keyword of each hint type, as UTF-8 bytes.
pub open spec fn hint_keyword(t: HintType) -> Seq<u8> {
    match t {
        HintType::L1BlockHeader => "l1-block-header".spec_bytes(),
        HintType::L1Transactions => "l1-transactions".spec_bytes(),
        HintType::L1Receipts => "l1-receipts".spec_bytes(),
        HintType::L1Precompile => "l1-precompile".spec_bytes(),
        HintType::L1Blob => "l1-blob".spec_bytes(),
        HintType::L2BlockHeader => "l2-block-header".spec_bytes(),
        HintType::L2Transactions => "l2-transactions".spec_bytes(),
        HintType::L2Code => "l2-code".spec_bytes(),
        HintType::L2StateNode => "l2-state-node".spec_bytes(),
        HintType::L2Output => "l2-output".spec_bytes(),
    }
}

/// The hint type a keyword denotes, if any.
pub open spec fn keyword_type(kw: Seq<u8>) -> Option<HintType> {
    if kw == hint_keyword(HintType::L1BlockHeader) {
        Some(HintType::L1BlockHeader)
    } else if kw == hint_keyword(HintType::L1Transactions) {
        Some(HintType::L1Transactions)
    } else if kw == hint_keyword(HintType::L1Receipts) {
        Some(HintType::L1Receipts)
    } else if kw == hint_keyword(HintType::L1Precompile) {
        Some(HintType::L1Precompile)
    } else if kw == hint_keyword(HintType::L1Blob) {
        Some(HintType::L1Blob)
    } else if kw == hint_keyword(HintType::L2BlockHeader) {
        Some(HintType::L2BlockHeader)
    } else if kw == hint_keyword(HintType::L2Transactions) {
        Some(HintType::L2Transactions)
    } else if kw == hint_keyword(HintType::L2Code) {
        Some(HintType::L2Code)
    } else if kw == hint_keyword(HintType::L2StateNode) {
        Some(HintType::L2StateNode)
    } else if kw == hint_keyword(HintType::L2Output) {
        Some(HintType::L2Output)
    } else {
        None
    }
}

/// The payload lengths each hint type takes: a 32-byte hash for most, a
/// commitment plus index for a blob, an address plus input for a
/// precompile call.
pub open spec fn payload_len_ok(t: HintType, n: nat) -> bool {
    match t {
        HintType::L1Blob => n == 56,
        HintType::L1Precompile => n >= 20,
        _ => n == 32,
    }
}

/// The position of the first space in `s` at or after `i`.
pub open spec fn first_space_from(s: Seq<u8>, i: int) -> Option<int>
    decreases s.len() - i,
{
    if i < 0 || i >= s.len() {
        None
    } else if s[i] == 32 {
        Some(i)
    } else {
        first_space_from(s, i + 1)
    }
}

/// What parsing a hint yields: the keyword before the first space decides
/// the type, the rest must be `0x` plus even hex and decode to a length
/// the type takes.
pub open spec fn spec_parse_hint(s: Seq<u8>) -> Result<(HintType, Seq<u8>), HintError> {
    match first_space_from(s, 0) {
        None => Err(HintError::MissingSeparator),
        Some(sp) => match keyword_type(s.subrange(0, sp)) {
            None => Err(HintError::UnknownType),
            Some(t) => {
                let p = s.subrange(sp + 1, s.len() as int);
                if !(p.len() >= 2 && p[0] == 0x30 && p[1] == 0x78 && (p.len() - 2) % 2 == 0
                    && all_hex_digits(p.subrange(2, p.len() as int))) {
                    Err(HintError::MalformedPayload)
                } else {
                    let payload = hex_bytes(p.subrange(2, p.len() as int));
                    if payload_len_ok(t, payload.len()) {
                        Ok((t, payload))
                    } else {
                        Err(HintError::BadPayloadLength)
                    }
                }
            },
        },
    }
}

/// A parsed hint: its type and its decoded payload bytes.
pub struct Hint {
    pub hint_type: HintType,
    pub payload: Vec<u8>,
}

/// Ghost image of a [`Hint`].
#[verifier::ext_equal]
pub ghost struct HintV {
    pub hint_type: HintType,
    pub payload: Seq<u8>,
}

impl View for Hint {
    type V = HintV;

    open spec fn view(&self) -> HintV {
        HintV { hint_type: self.hint_type, payload: self.payload@ }
    }
}

/// Reads the keyword back into a hint type.
fn keyword_to_type(kw: &Vec<u8>) -> (r: Option<HintType>)
    ensures
        r == keyword_type(kw@),
{
    if bytes_eq_slice(kw.as_slice(), "l1-block-header".as_bytes()) {
        Some(HintType::L1BlockHeader)
    } else if bytes_eq_slice(kw.as_slice(), "l1-transactions".as_bytes()) {
        Some(HintType::L1Transactions)
    } else if bytes_eq_slice(kw.as_slice(), "l1-receipts".as_bytes()) {
        Some(HintType::L1Receipts)
    } else if bytes_eq_slice(kw.as_slice(), "l1-precompile".as_bytes()) {
        Some(HintType::L1Precompile)
    } else if bytes_eq_slice(kw.as_slice(), "l1-blob".as_bytes()) {
        Some(HintType::L1Blob)
    } else if bytes_eq_slice(kw.as_slice(), "l2-block-header".as_bytes()) {
        Some(HintType::L2BlockHeader)
    } else if bytes_eq_slice(kw.as_slice(), "l2-transactions".as_bytes()) {
        Some(HintType::L2Transactions)
    } else if bytes_eq_slice(kw.as_slice(), "l2-code".as_bytes()) {
        Some(HintType::L2Code)
    } else if bytes_eq_slice(kw.as_slice(), "l2-state-node".as_bytes()) {
        Some(HintType::L2StateNode)
    } else if bytes_eq_slice(kw.as_slice(), "l2-output".as_bytes()) {
        Some(HintType::L2Output)
    } else {
        None
    }
}

/// Parses one hint string. Succeeds exactly on `<keyword> 0x<hex>` with a
/// known keyword, even hex, and a payload length the type takes.
pub fn parse_hint(s: &Vec<u8>) -> (r: Result<Hint, HintError>)
    ensures
        match r {
            Ok(h) => spec_parse_hint(s@) == Ok::<(HintType, Seq<u8>), HintError>(
                (h@.hint_type, h@.payload),
            ),
            Err(e) => spec_parse_hint(s@) == Err::<(HintType, Seq<u8>), HintError>(e),
        },
{
    let mut sp: usize = 0;
    let mut found: bool = false;
    loop
        invariant_except_break
            !found,
        invariant
            0 <= sp <= s@.len(),
            first_space_from(s@, 0) == first_space_from(s@, sp as int),
        ensures
            found ==> sp < s@.len() && s@[sp as int] == 32 && first_space_from(s@, 0)
                == Some(sp as int),
            !found ==> first_space_from(s@, 0) is None,
        decreases s@.len() - sp,
    {
        if sp >= s.len() {
            break;
        }
        if s[sp] == 32 {
            found = true;
            break;
        }
        sp = sp + 1;
    }
    if !found {
        return Err(HintError::MissingSeparator);
    }
    let kw: Vec<u8> = copy_range(s, 0, sp);
    let t: HintType = match keyword_to_type(&kw) {
        Some(t) => t,
        None => {
            return Err(HintError::UnknownType);
        },
    };
    let ghost p = s@.subrange(sp + 1, s@.len() as int);
    if s.len() - (sp + 1) < 2 || s[sp + 1] != 0x30 || s[sp + 2] != 0x78 {
        proof {
            assert(p.len() >= 2 ==> p[0] == s@[sp + 1] && p[1] == s@[sp + 2]);
        }
        return Err(HintError::MalformedPayload);
    }
    proof {
        assert(p[0] == s@[sp + 1] && p[1] == s@[sp + 2]);
        assert(p.subrange(2, p.len() as int) =~= s@.subrange(sp + 3, s@.len() as int));
    }
    let payload: Vec<u8> = match hex_decode_from(s, sp + 3) {
        Some(v) => v,
        None => {
            return Err(HintError::MalformedPayload);
        },
    };
    let len_ok: bool = match t {
        HintType::L1Blob => payload.len() == 56,
        HintType::L1Precompile => payload.len() >= 20,
        _ => payload.len() == 32,
    };
    if !len_ok {
        return Err(HintError::BadPayloadLength);
    }
    Ok(Hint { hint_type: t, payload })
}

} // verus!
