//! Small verified helpers on byte vectors: copying, comparison,
//! big-endian integer codecs and hex decoding.

use vstd::prelude::*;

verus! {

/// Returns a fresh vector holding the same bytes as `src`.
pub fn copy_bytes(src: &Vec<u8>) -> (r: Vec<u8>)
    ensures
        r@ == src@,
{
    let mut out: Vec<u8> = Vec::new();
    let mut i: usize = 0;
    while i < src.len()
        invariant
            i <= src@.len(),
            out@ =~= src@.subrange(0, i as int),
        decreases src@.len() - i,
    {
        out.push(src[i]);
        i = i + 1;
    }
    proof {
        assert(out@ =~= src@);
    }
    out
}

/// Returns a fresh vector holding `src[from..to]`.
pub fn copy_range(src: &Vec<u8>, from: usize, to: usize) -> (r: Vec<u8>)
    requires
        from <= to <= src@.len(),
    ensures
        r@ == src@.subrange(from as int, to as int),
{
    let mut out: Vec<u8> = Vec::new();
    let mut i: usize = from;
    while i < to
        invariant
            from <= i <= to <= src@.len(),
            out@ =~= src@.subrange(from as int, i as int),
        decreases to - i,
    {
        out.push(src[i]);
        i = i + 1;
    }
    proof {
        assert(out@ =~= src@.subrange(from as int, to as int));
    }
    out
}

/// Byte-for-byte equality of two vectors.
pub fn bytes_eq(a: &Vec<u8>, b: &Vec<u8>) -> (r: bool)
    ensures
        r <==> a@ == b@,
{
    if a.len() != b.len() {
        proof {
            assert(a@.len() != b@.len());
        }
        return false;
    }
    let mut i: usize = 0;
    while i < a.len()
        invariant
            i <= a@.len(),
            a@.len() == b@.len(),
            forall|j: int| 0 <= j < i ==> a@[j] == b@[j],
        decreases a@.len() - i,
    {
        if a[i] != b[i] {
            return false;
        }
        i = i + 1;
    }
    proof {
        assert(a@ =~= b@);
    }
    true
}

/// Equality of a vector against a borrowed byte slice.
pub fn bytes_eq_slice(a: &[u8], b: &[u8]) -> (r: bool)
    ensures
        r <==> a@ == b@,
{
    if a.len() != b.len() {
        proof {
            assert(a@.len() != b@.len());
        }
        return false;
    }
    let mut i: usize = 0;
    while i < a.len()
        invariant
            i <= a@.len(),
            a@.len() == b@.len(),
            forall|j: int| 0 <= j < i ==> a@[j] == b@[j],
        decreases a@.len() - i,
    {
        if a[i] != b[i] {
            return false;
        }
        i = i + 1;
    }
    proof {
        assert(a@ =~= b@);
    }
    true
}

/// The value of a 4-byte big-endian prefix.
pub open spec fn be32_val(s: Seq<u8>) -> int
    recommends
        s.len() >= 4,
{
    s[0] * 0x1000000 + s[1] * 0x10000 + s[2] * 0x100 + s[3]
}

/// The value of an 8-byte big-endian prefix.
pub open spec fn be64_val(s: Seq<u8>) -> int
    recommends
        s.len() >= 8,
{
    s[0] * 0x100000000000000 + s[1] * 0x1000000000000 + s[2] * 0x10000000000
        + s[3] * 0x100000000 + s[4] * 0x1000000 + s[5] * 0x10000 + s[6] * 0x100 + s[7]
}

/// Reads the 4-byte big-endian integer at offset `at`.
pub fn read_be32(s: &Vec<u8>, at: usize) -> (r: u32)
    requires
        at + 4 <= s@.len(),
    ensures
        r == be32_val(s@.subrange(at as int, at + 4)),
{
    let len: usize = s.len();
    proof {
        assert(at + 4 <= len);
    }
    let b0: u32 = s[at] as u32;
    let b1: u32 = s[at + 1] as u32;
    let b2: u32 = s[at + 2] as u32;
    let b3: u32 = s[at + 3] as u32;
    let r: u32 = b0 * 0x1000000 + b1 * 0x10000 + b2 * 0x100 + b3;
    proof {
        let sub = s@.subrange(at as int, at + 4);
        assert(sub[0] == s@[at as int] && sub[1] == s@[at + 1] && sub[2] == s@[at + 2]
            && sub[3] == s@[at + 3]);
    }
    r
}

/// Reads the 8-byte big-endian integer at offset `at`.
pub fn read_be64(s: &Vec<u8>, at: usize) -> (r: u64)
    requires
        at + 8 <= s@.len(),
    ensures
        r == be64_val(s@.subrange(at as int, at + 8)),
{
    let len: usize = s.len();
    proof {
        assert(at + 8 <= len);
    }
    let b0: u64 = s[at] as u64;
    let b1: u64 = s[at + 1] as u64;
    let b2: u64 = s[at + 2] as u64;
    let b3: u64 = s[at + 3] as u64;
    let b4: u64 = s[at + 4] as u64;
    let b5: u64 = s[at + 5] as u64;
    let b6: u64 = s[at + 6] as u64;
    let b7: u64 = s[at + 7] as u64;
    let r: u64 = b0 * 0x100000000000000 + b1 * 0x1000000000000 + b2 * 0x10000000000
        + b3 * 0x100000000 + b4 * 0x1000000 + b5 * 0x10000 + b6 * 0x100 + b7;
    proof {
        let sub = s@.subrange(at as int, at + 8);
        assert(sub[0] == s@[at as int] && sub[1] == s@[at + 1] && sub[2] == s@[at + 2]
            && sub[3] == s@[at + 3] && sub[4] == s@[at + 4] && sub[5] == s@[at + 5]
            && sub[6] == s@[at + 6] && sub[7] == s@[at + 7]);
    }
    r
}

/// Appends the 4-byte big-endian encoding of `x` to `out`.
pub fn push_be32(out: &mut Vec<u8>, x: u32)
    ensures
        final(out)@.len() == old(out)@.len() + 4,
        final(out)@.subrange(0, old(out)@.len() as int) == old(out)@,
        be32_val(final(out)@.subrange(old(out)@.len() as int, final(out)@.len() as int))
            == x,
{
    let b0: u8 = (x >> 24) as u8;
    let b1: u8 = ((x >> 16) & 0xff) as u8;
    let b2: u8 = ((x >> 8) & 0xff) as u8;
    let b3: u8 = (x & 0xff) as u8;
    proof {
        assert((x >> 24) < 256 && ((x >> 16) & 0xff) < 256 && ((x >> 8) & 0xff) < 256 && (
        x & 0xff) < 256) by (bit_vector);
        assert((x >> 24) * 0x1000000 + ((x >> 16) & 0xff) * 0x10000 + ((x >> 8) & 0xff)
            * 0x100 + (x & 0xff) == x) by (bit_vector);
    }
    out.push(b0);
    out.push(b1);
    out.push(b2);
    out.push(b3);
    proof {
        let tail = final(out)@.subrange(old(out)@.len() as int, final(out)@.len() as int);
        assert(tail[0] == b0 && tail[1] == b1 && tail[2] == b2 && tail[3] == b3);
        assert(final(out)@.subrange(0, old(out)@.len() as int) =~= old(out)@);
    }
}

/// Appends the 8-byte big-endian encoding of `x` to `out`.
pub fn push_be64(out: &mut Vec<u8>, x: u64)
    ensures
        final(out)@.len() == old(out)@.len() + 8,
        final(out)@.subrange(0, old(out)@.len() as int) == old(out)@,
        be64_val(final(out)@.subrange(old(out)@.len() as int, final(out)@.len() as int))
            == x,
{
    let b0: u8 = (x >> 56) as u8;
    let b1: u8 = ((x >> 48) & 0xff) as u8;
    let b2: u8 = ((x >> 40) & 0xff) as u8;
    let b3: u8 = ((x >> 32) & 0xff) as u8;
    let b4: u8 = ((x >> 24) & 0xff) as u8;
    let b5: u8 = ((x >> 16) & 0xff) as u8;
    let b6: u8 = ((x >> 8) & 0xff) as u8;
    let b7: u8 = (x & 0xff) as u8;
    proof {
        assert((x >> 56) < 256 && ((x >> 48) & 0xff) < 256 && ((x >> 40) & 0xff) < 256
            && ((x >> 32) & 0xff) < 256 && ((x >> 24) & 0xff) < 256 && ((x >> 16) & 0xff)
            < 256 && ((x >> 8) & 0xff) < 256 && (x & 0xff) < 256) by (bit_vector);
        assert((x >> 56) * 0x100000000000000 + ((x >> 48) & 0xff) * 0x1000000000000 + ((x
            >> 40) & 0xff) * 0x10000000000 + ((x >> 32) & 0xff) * 0x100000000 + ((x >> 24)
            & 0xff) * 0x1000000 + ((x >> 16) & 0xff) * 0x10000 + ((x >> 8) & 0xff) * 0x100
            + (x & 0xff) == x) by (bit_vector);
    }
    out.push(b0);
    out.push(b1);
    out.push(b2);
    out.push(b3);
    out.push(b4);
    out.push(b5);
    out.push(b6);
    out.push(b7);
    proof {
        let tail = final(out)@.subrange(old(out)@.len() as int, final(out)@.len() as int);
        assert(tail[0] == b0 && tail[1] == b1 && tail[2] == b2 && tail[3] == b3
            && tail[4] == b4 && tail[5] == b5 && tail[6] == b6 && tail[7] == b7);
        assert(final(out)@.subrange(0, old(out)@.len() as int) =~= old(out)@);
    }
}

/// Whether `c` is an ASCII hexadecimal digit.
pub open spec fn is_hex_digit(c: u8) -> bool {
    (0x30 <= c && c <= 0x39) || (0x61 <= c && c <= 0x66) || (0x41 <= c && c <= 0x46)
}

/// The numeric value of the hexadecimal digit `c`.
pub open spec fn hex_digit_val(c: u8) -> int
    recommends
        is_hex_digit(c),
{
    if 0x30 <= c && c <= 0x39 {
        c - 0x30
    } else if 0x61 <= c && c <= 0x66 {
        c - 0x61 + 10
    } else if 0x41 <= c && c <= 0x46 {
        c - 0x41 + 10
    } else {
        0
    }
}

/// Whether `s` consists only of hexadecimal digits.
pub open spec fn all_hex_digits(s: Seq<u8>) -> bool {
    forall|i: int| 0 <= i < s.len() ==> is_hex_digit(s[i])
}

/// The bytes denoted by the hexadecimal digit string `s` (two digits a byte).
pub open spec fn hex_bytes(s: Seq<u8>) -> Seq<u8>
    recommends
        s.len() % 2 == 0,
    decreases s.len(),
{
    if s.len() < 2 {
        Seq::empty()
    } else {
        seq![(hex_digit_val(s[0]) * 16 + hex_digit_val(s[1])) as u8] + hex_bytes(
            s.subrange(2, s.len() as int),
        )
    }
}

/// Decodes one hexadecimal digit, or `None` if `c` is not one.
pub fn hex_digit(c: u8) -> (r: Option<u8>)
    ensures
        r is Some <==> is_hex_digit(c),
        r is Some ==> r->0 == hex_digit_val(c),
{
    if 0x30 <= c && c <= 0x39 {
        Some(c - 0x30)
    } else if 0x61 <= c && c <= 0x66 {
        Some(c - 0x61 + 10)
    } else if 0x41 <= c && c <= 0x46 {
        Some(c - 0x41 + 10)
    } else {
        None
    }
}

/// Decodes the hexadecimal digit string starting at offset `at`.
/// Returns `None` unless every remaining byte is a hex digit and the
/// remaining length is even.
pub fn hex_decode_from(s: &Vec<u8>, at: usize) -> (r: Option<Vec<u8>>)
    requires
        at <= s@.len(),
    ensures
        r is Some <==> ((s@.len() - at) % 2 == 0 && all_hex_digits(
            s@.subrange(at as int, s@.len() as int),
        )),
        r is Some ==> r->0@ == hex_bytes(s@.subrange(at as int, s@.len() as int)),
{
    if (s.len() - at) % 2 != 0 {
        return None;
    }
    let mut out: Vec<u8> = Vec::new();
    let mut i: usize = at;
    while i < s.len()
        invariant
            at <= i <= s@.len(),
            (s@.len() - at) % 2 == 0,
            (i - at) % 2 == 0,
            all_hex_digits(s@.subrange(at as int, i as int)),
            out@ == hex_bytes(s@.subrange(at as int, i as int)),
        decreases s@.len() - i,
    {
        let hi: Option<u8> = hex_digit(s[i]);
        let lo: Option<u8> = hex_digit(s[i + 1]);
        match (hi, lo) {
            (Some(h), Some(l)) => {
                out.push(h * 16 + l);
                proof {
                    lemma_hex_bytes_snoc(s@, at as int, i as int);
                }
                i = i + 2;
            },
            _ => {
                proof {
                    let whole = s@.subrange(at as int, s@.len() as int);
                    if is_hex_digit(s@[i as int]) && is_hex_digit(s@[i + 1]) {
                        assert(false);
                    }
                    assert(!all_hex_digits(whole)) by {
                        if all_hex_digits(whole) {
                            assert(whole[i - at] == s@[i as int]);
                            assert(whole[i + 1 - at] == s@[i + 1]);
                        }
                    }
                }
                return None;
            },
        }
    }
    proof {
        assert(s@.subrange(at as int, i as int) =~= s@.subrange(at as int, s@.len() as int));
    }
    Some(out)
}

/// The value of the hexadecimal digit string `s`, most significant first.
pub open spec fn hex_val_of(s: Seq<u8>) -> int
    recommends
        all_hex_digits(s),
    decreases s.len(),
{
    if s.len() == 0 {
        0
    } else {
        hex_val_of(s.drop_last()) * 16 + hex_digit_val(s.last())
    }
}

/// A hexadecimal value is never negative.
pub proof fn lemma_hex_val_nonneg(s: Seq<u8>)
    ensures
        hex_val_of(s) >= 0,
    decreases s.len(),
{
    if s.len() > 0 {
        lemma_hex_val_nonneg(s.drop_last());
    }
}

/// Reading more digits never lowers the value.
pub proof fn lemma_hex_val_prefix_le(s: Seq<u8>, i: int, j: int)
    requires
        0 <= i <= j <= s.len(),
    ensures
        hex_val_of(s.subrange(0, i)) <= hex_val_of(s.subrange(0, j)),
    decreases j - i,
{
    if i < j {
        lemma_hex_val_prefix_le(s, i, j - 1);
        let a = s.subrange(0, j - 1);
        let b = s.subrange(0, j);
        assert(b.drop_last() =~= a);
        lemma_hex_val_nonneg(a);
        assert(hex_val_of(b) == hex_val_of(a) * 16 + hex_digit_val(b.last()));
        assert(hex_digit_val(b.last()) >= 0);
        assert(hex_val_of(a) * 16 >= hex_val_of(a));
    }
}

/// Parses the hexadecimal digit string `s[at..]` as a `u64`. Succeeds
/// exactly when at least one digit follows, every byte is a hex digit,
/// and the value fits.
pub fn parse_hex_u64(s: &Vec<u8>, at: usize) -> (r: Option<u64>)
    requires
        at <= s@.len(),
    ensures
        match r {
            Some(v) => s@.len() - at >= 1 && all_hex_digits(
                s@.subrange(at as int, s@.len() as int),
            ) && v == hex_val_of(s@.subrange(at as int, s@.len() as int)),
            None => s@.len() - at < 1 || !all_hex_digits(
                s@.subrange(at as int, s@.len() as int),
            ) || hex_val_of(s@.subrange(at as int, s@.len() as int)) > u64::MAX,
        },
{
    let ghost whole = s@.subrange(at as int, s@.len() as int);
    if s.len() == at {
        return None;
    }
    let mut acc: u64 = 0;
    let mut i: usize = at;
    while i < s.len()
        invariant
            at <= i <= s@.len(),
            whole == s@.subrange(at as int, s@.len() as int),
            all_hex_digits(whole.subrange(0, i - at)),
            acc == hex_val_of(whole.subrange(0, i - at)),
        decreases s@.len() - i,
    {
        let d: u8 = match hex_digit(s[i]) {
            Some(d) => d,
            None => {
                proof {
                    assert(whole[i - at] == s@[i as int]);
                }
                return None;
            },
        };
        let shifted: u64 = match acc.checked_mul(16) {
            Some(x) => x,
            None => {
                proof {
                    lemma_too_big(whole, i - at);
                }
                return None;
            },
        };
        let next: u64 = match shifted.checked_add(d as u64) {
            Some(x) => x,
            None => {
                proof {
                    lemma_too_big(whole, i - at);
                }
                return None;
            },
        };
        acc = next;
        i = i + 1;
        proof {
            let pre = whole.subrange(0, i - 1 - at);
            let cur = whole.subrange(0, i - at);
            assert(cur.drop_last() =~= pre);
            assert(cur.last() == s@[i - 1]);
        }
    }
    proof {
        assert(whole.subrange(0, whole.len() as int) =~= whole);
    }
    Some(acc)
}

/// If one more digit already overflows, the whole string's value is
/// over the limit too.
proof fn lemma_too_big(whole: Seq<u8>, k: int)
    requires
        0 <= k < whole.len(),
        hex_val_of(whole.subrange(0, k)) * 16 > u64::MAX || hex_val_of(whole.subrange(0, k))
            * 16 + hex_digit_val(whole[k]) > u64::MAX,
    ensures
        hex_val_of(whole) > u64::MAX,
{
    let ext = whole.subrange(0, k + 1);
    assert(ext.drop_last() =~= whole.subrange(0, k));
    assert(hex_val_of(ext) == hex_val_of(whole.subrange(0, k)) * 16 + hex_digit_val(whole[k]));
    lemma_hex_val_nonneg(whole.subrange(0, k));
    lemma_hex_val_prefix_le(whole, k + 1, whole.len() as int);
    assert(whole.subrange(0, whole.len() as int) =~= whole);
}

/// Decoding a digit string two digits longer appends one byte.
proof fn lemma_hex_bytes_snoc(s: Seq<u8>, at: int, i: int)
    requires
        0 <= at <= i,
        (i - at) % 2 == 0,
        i + 2 <= s.len(),
    ensures
        hex_bytes(s.subrange(at, i + 2)) == hex_bytes(s.subrange(at, i)) + seq![
            (hex_digit_val(s[i]) * 16 + hex_digit_val(s[i + 1])) as u8,
        ],
    decreases i - at,
{
    if at == i {
        assert(hex_bytes(s.subrange(at, at)) =~= Seq::<u8>::empty());
        let two = s.subrange(at, at + 2);
        assert(two[0] == s[at] && two[1] == s[at + 1]);
        assert(two.subrange(2, 2) =~= Seq::<u8>::empty());
        assert(hex_bytes(two.subrange(2, 2)) =~= Seq::<u8>::empty());
        assert(hex_bytes(two) =~= seq![(hex_digit_val(s[at]) * 16 + hex_digit_val(s[at + 1])) as u8]);
    } else {
        lemma_hex_bytes_snoc(s, at + 2, i);
        let a = s.subrange(at, i + 2);
        let b = s.subrange(at, i);
        assert(a.subrange(2, a.len() as int) =~= s.subrange(at + 2, i + 2));
        assert(b.subrange(2, b.len() as int) =~= s.subrange(at + 2, i));
        assert(a[0] == s[at] && a[1] == s[at + 1] && b[0] == s[at] && b[1] == s[at + 1]);
        assert(hex_bytes(s.subrange(at, i + 2)) =~= hex_bytes(s.subrange(at, i)) + seq![
            (hex_digit_val(s[i]) * 16 + hex_digit_val(s[i + 1])) as u8,
        ]);
    }
}

} // verus!
