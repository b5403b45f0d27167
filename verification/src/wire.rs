//! Wire framing of the two host channels.
//!
//! Hint channel: `u32` big-endian length, then that many bytes of UTF-8
//! hint; each complete frame is acknowledged with the single byte `0`.
//! Oracle channel: a 32-byte key each way in, and a `u64` big-endian
//! length followed by the raw preimage bytes back out.

use vstd::prelude::*;
use crate::byteops::{be32_val, be64_val, copy_bytes, push_be32, push_be64, read_be32, read_be64};

verus! {

/// The acknowledgment byte written after each complete hint frame.
pub const ACK_BYTE: u8 = 0;

/// The complete hint frames at the front of `s`, decoded greedily: a
/// 4-byte big-endian length, then that many payload bytes, repeated until
/// the remainder is empty or truncated.
pub open spec fn hint_frames(s: Seq<u8>) -> Seq<Seq<u8>>
    decreases s.len(),
{
    if s.len() < 4 {
        Seq::empty()
    } else {
        let n = be32_val(s.subrange(0, 4));
        if s.len() >= 4 + n {
            seq![s.subrange(4, 4 + n)] + hint_frames(s.subrange(4 + n, s.len() as int))
        } else {
            Seq::empty()
        }
    }
}

/// Encodes one hint frame: the payload length as 4 big-endian bytes,
/// then the payload.
pub fn encode_hint_frame(hint: &Vec<u8>) -> (r: Vec<u8>)
    requires
        hint@.len() <= u32::MAX,
    ensures
        r@.len() == 4 + hint@.len(),
        be32_val(r@.subrange(0, 4)) == hint@.len(),
        r@.subrange(4, r@.len() as int) == hint@,
{
    let mut out: Vec<u8> = Vec::new();
    push_be32(&mut out, hint.len() as u32);
    let mut i: usize = 0;
    while i < hint.len()
        invariant
            i <= hint@.len(),
            out@.len() == 4 + i,
            be32_val(out@.subrange(0, 4)) == hint@.len(),
            out@.subrange(4, out@.len() as int) =~= hint@.subrange(0, i as int),
        decreases hint@.len() - i,
    {
        let ghost prev = out@;
        out.push(hint[i]);
        i = i + 1;
        proof {
            assert(out@.subrange(0, 4) =~= prev.subrange(0, 4));
        }
    }
    proof {
        assert(out@.subrange(4, out@.len() as int) =~= hint@);
    }
    out
}

/// One encoded frame followed by anything decodes to that frame followed
/// by whatever the rest decodes to.
pub proof fn lemma_hint_frames_compose(frame: Seq<u8>, rest: Seq<u8>, all: Seq<u8>)
    requires
        all.len() >= 4 + frame.len(),
        be32_val(all.subrange(0, 4)) == frame.len(),
        all.subrange(4, 4 + frame.len() as int) == frame,
        all.subrange(4 + frame.len() as int, all.len() as int) == rest,
    ensures
        hint_frames(all) == seq![frame] + hint_frames(rest),
{
    assert(hint_frames(all) =~= seq![frame] + hint_frames(rest));
}

/// Reads every complete hint frame from `buf`, acknowledging each: the
/// returned payloads are exactly the complete frames at the front of the
/// buffer, and the ack count equals the number of complete frames read.
pub fn drain_hint_frames(buf: &Vec<u8>) -> (r: (Vec<Vec<u8>>, Vec<u8>))
    ensures
        r.0.deep_view() == hint_frames(buf@),
        r.1@.len() == hint_frames(buf@).len(),
        forall|i: int| 0 <= i < r.1@.len() ==> r.1@[i] == ACK_BYTE,
{
    let mut out: Vec<Vec<u8>> = Vec::new();
    let mut acks: Vec<u8> = Vec::new();
    let mut at: usize = 0;
    proof {
        assert(buf@.subrange(0, buf@.len() as int) =~= buf@);
        assert(out.deep_view() =~= Seq::<Seq<u8>>::empty());
        assert(hint_frames(buf@) =~= out.deep_view() + hint_frames(buf@));
    }
    loop
        invariant
            at <= buf@.len(),
            acks@.len() == out@.len(),
            forall|i: int| 0 <= i < acks@.len() ==> acks@[i] == ACK_BYTE,
            hint_frames(buf@) == out.deep_view() + hint_frames(
                buf@.subrange(at as int, buf@.len() as int),
            ),
        ensures
            out.deep_view() == hint_frames(buf@),
            acks@.len() == out@.len(),
            forall|i: int| 0 <= i < acks@.len() ==> acks@[i] == ACK_BYTE,
        decreases buf@.len() - at,
    {
        let ghost pending = buf@.subrange(at as int, buf@.len() as int);
        if buf.len() - at < 4 {
            proof {
                assert(hint_frames(pending) =~= Seq::<Seq<u8>>::empty());
                assert(out.deep_view() =~= out.deep_view() + hint_frames(pending));
            }
            break;
        }
        let n32: u32 = read_be32(buf, at);
        proof {
            assert(pending.subrange(0, 4) =~= buf@.subrange(at as int, at + 4));
        }
        if (buf.len() - at - 4) < (n32 as usize) {
            proof {
                assert(hint_frames(pending) =~= Seq::<Seq<u8>>::empty());
                assert(out.deep_view() =~= out.deep_view() + hint_frames(pending));
            }
            break;
        }
        let n: usize = n32 as usize;
        let end: usize = at + 4 + n;
        let mut frame: Vec<u8> = Vec::new();
        let mut i: usize = at + 4;
        while i < end
            invariant
                at + 4 <= i <= end,
                end == at + 4 + n,
                end <= buf@.len(),
                frame@ =~= buf@.subrange(at + 4, i as int),
            decreases end - i,
        {
            frame.push(buf[i]);
            i = i + 1;
        }
        let ghost prev = out.deep_view();
        let ghost framev = frame@;
        out.push(frame);
        acks.push(ACK_BYTE);
        let ghost old_at = at as int;
        at = end;
        proof {
            let rest = buf@.subrange(at as int, buf@.len() as int);
            assert(pending.subrange(4, 4 + n) =~= buf@.subrange(old_at + 4, old_at + 4 + n));
            assert(pending.subrange(4 + n, pending.len() as int) =~= rest);
            lemma_hint_frames_compose(framev, rest, pending);
            assert(out@[out@.len() - 1].deep_view() =~= framev);
            assert(out.deep_view() =~= prev + seq![framev]);
            assert(out.deep_view() + hint_frames(rest) =~= prev + hint_frames(pending));
        }
    }
    (out, acks)
}

/// Encodes one oracle response: the value length as 8 big-endian bytes,
/// then the value.
pub fn encode_oracle_response(value: &Vec<u8>) -> (r: Vec<u8>)
    ensures
        r@.len() == 8 + value@.len(),
        be64_val(r@.subrange(0, 8)) == value@.len(),
        r@.subrange(8, r@.len() as int) == value@,
{
    let mut out: Vec<u8> = Vec::new();
    push_be64(&mut out, value.len() as u64);
    let mut i: usize = 0;
    while i < value.len()
        invariant
            i <= value@.len(),
            out@.len() == 8 + i,
            be64_val(out@.subrange(0, 8)) == value@.len(),
            out@.subrange(8, out@.len() as int) =~= value@.subrange(0, i as int),
        decreases value@.len() - i,
    {
        let ghost prev = out@;
        out.push(value[i]);
        i = i + 1;
        proof {
            assert(out@.subrange(0, 8) =~= prev.subrange(0, 8));
        }
    }
    proof {
        assert(out@.subrange(8, out@.len() as int) =~= value@);
    }
    out
}

/// Reads one oracle response from the front of `buf`: `None` if the
/// buffer is shorter than its length prefix promises.
pub fn decode_oracle_response(buf: &Vec<u8>) -> (r: Option<Vec<u8>>)
    ensures
        match r {
            Some(v) => buf@.len() >= 8 && be64_val(buf@.subrange(0, 8)) == v@.len()
                && v@ == buf@.subrange(8, 8 + v@.len() as int),
            None => buf@.len() < 8 || be64_val(buf@.subrange(0, 8)) > buf@.len() - 8,
        },
{
    if buf.len() < 8 {
        return None;
    }
    let n64: u64 = read_be64(buf, 0);
    proof {
        assert(buf@.subrange(0, 8) =~= buf@.subrange(0int, 8int));
    }
    if n64 > (buf.len() - 8) as u64 {
        return None;
    }
    let n: usize = n64 as usize;
    let end: usize = 8 + n;
    let mut v: Vec<u8> = Vec::new();
    let mut i: usize = 8;
    while i < end
        invariant
            8 <= i <= end,
            end == 8 + n,
            end <= buf@.len(),
            v@ =~= buf@.subrange(8, i as int),
        decreases end - i,
    {
        v.push(buf[i]);
        i = i + 1;
    }
    Some(v)
}

/// An encoded oracle response reads back as the value it encodes.
pub proof fn lemma_oracle_response_roundtrip(value: Seq<u8>, encoded: Seq<u8>)
    requires
        encoded.len() == 8 + value.len(),
        be64_val(encoded.subrange(0, 8)) == value.len(),
        encoded.subrange(8, encoded.len() as int) == value,
    ensures
        be64_val(encoded.subrange(0, 8)) <= encoded.len() - 8,
        encoded.subrange(8, 8 + value.len() as int) == value,
{
    assert(encoded.subrange(8, 8 + value.len() as int) =~= encoded.subrange(
        8,
        encoded.len() as int,
    ));
}

} // verus!
