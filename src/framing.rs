//! A length-prefixed byte framing: integers as eight little-endian bytes,
//! byte strings and lists of them preceded by their length.
use vstd::prelude::*;

verus! {

pub open spec fn le64(v: u64) -> Seq<u8> {
    seq![
        (v & 0xff) as u8,
        ((v >> 8u64) & 0xff) as u8,
        ((v >> 16u64) & 0xff) as u8,
        ((v >> 24u64) & 0xff) as u8,
        ((v >> 32u64) & 0xff) as u8,
        ((v >> 40u64) & 0xff) as u8,
        ((v >> 48u64) & 0xff) as u8,
        ((v >> 56u64) & 0xff) as u8,
    ]
}

/// A byte string preceded by its length.
pub open spec fn frame(b: Seq<u8>) -> Seq<u8> {
    le64(b.len() as u64) + b
}

/// The frames of a list's entries, one after another.
pub open spec fn frames(s: Seq<Seq<u8>>) -> Seq<u8>
    decreases s.len(),
{
    if s.len() == 0 {
        Seq::empty()
    } else {
        frames(s.drop_last()) + frame(s.last())
    }
}

/// A list of byte strings preceded by its number of entries.
pub open spec fn frame_list(s: Seq<Seq<u8>>) -> Seq<u8> {
    le64(s.len() as u64) + frames(s)
}

pub fn push_u64(out: &mut Vec<u8>, v: u64)
    ensures
        final(out)@ == old(out)@ + le64(v),
{
    out.push((v & 0xff) as u8);
    out.push(((v >> 8u64) & 0xff) as u8);
    out.push(((v >> 16u64) & 0xff) as u8);
    out.push(((v >> 24u64) & 0xff) as u8);
    out.push(((v >> 32u64) & 0xff) as u8);
    out.push(((v >> 40u64) & 0xff) as u8);
    out.push(((v >> 48u64) & 0xff) as u8);
    out.push(((v >> 56u64) & 0xff) as u8);
    assert(out@ =~= old(out)@ + le64(v));
}

pub fn push_frame(out: &mut Vec<u8>, b: &[u8])
    ensures
        final(out)@ == old(out)@ + frame(b@),
{
    push_u64(out, b.len() as u64);
    let ghost start = out@;
    let mut i: usize = 0;
    while i < b.len()
        invariant
            i <= b@.len(),
            out@ == start + b@.subrange(0, i as int),
        decreases b@.len() - i,
    {
        out.push(b[i]);
        assert(b@.subrange(0, i + 1) == b@.subrange(0, i as int).push(b@[i as int]));
        i = i + 1;
    }
    assert(b@.subrange(0, i as int) == b@);
    assert(out@ =~= old(out)@ + frame(b@));
}

pub fn push_frame_list(out: &mut Vec<u8>, s: &Vec<Vec<u8>>)
    ensures
        final(out)@ == old(out)@ + frame_list(s.deep_view()),
{
    push_u64(out, s.len() as u64);
    let ghost start = out@;
    let mut i: usize = 0;
    while i < s.len()
        invariant
            i <= s@.len(),
            out@ == start + frames(s.deep_view().take(i as int)),
        decreases s@.len() - i,
    {
        push_frame(out, s[i].as_slice());
        let ghost t = s.deep_view().take(i + 1);
        assert(t.drop_last() == s.deep_view().take(i as int));
        assert(t.last() == s@[i as int]@);
        i = i + 1;
    }
    assert(s.deep_view().take(i as int) == s.deep_view());
    assert(out@ =~= old(out)@ + frame_list(s.deep_view()));
}

} // verus!
