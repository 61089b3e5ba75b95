//! Appending byte text, with its meaning as a sequence.
use vstd::prelude::*;
use vstd::string::StringSliceAdditionalSpecFns;

verus! {

/// The UTF-8 bytes of a string literal.
pub open spec fn lit(s: &str) -> Seq<u8> {
    s.spec_bytes()
}

/// A line feed.
pub open spec fn nl() -> Seq<u8> {
    seq![10u8]
}

/// Appends `b` to `out`.
pub fn push_bytes(out: &mut Vec<u8>, b: &[u8])
    ensures
        final(out)@ == old(out)@ + b@,
{
    let ghost start = old(out)@;
    let mut i: usize = 0;
    while i < b.len()
        invariant
            i <= b@.len(),
            out@ == start + b@.take(i as int),
        decreases b@.len() - i,
    {
        out.push(b[i]);
        i = i + 1;
        assert(out@ =~= start + b@.take(i as int));
    }
    assert(b@.take(b@.len() as int) =~= b@);
}

/// Appends the UTF-8 bytes of `s` to `out`.
pub fn push_str(out: &mut Vec<u8>, s: &str)
    ensures
        final(out)@ == old(out)@ + lit(s),
{
    push_bytes(out, s.as_bytes());
}

/// Appends a line feed to `out`.
pub fn push_nl(out: &mut Vec<u8>)
    ensures
        final(out)@ == old(out)@ + nl(),
{
    out.push(10u8);
    assert(final(out)@ =~= old(out)@ + nl());
}

/// Whether a byte is ASCII whitespace (space, tab, line feed, form feed, carriage return).
pub open spec fn ascii_space(b: u8) -> bool {
    b == 32 || b == 9 || b == 10 || b == 12 || b == 13
}

/// The index of the first byte that is not ASCII whitespace (or the length).
pub open spec fn lead_end(b: Seq<u8>, i: int) -> int
    decreases b.len() - i,
{
    if i < 0 || i >= b.len() || !ascii_space(b[i]) {
        i
    } else {
        lead_end(b, i + 1)
    }
}

/// One past the last byte at or after `lo` that is not ASCII whitespace (or `lo`).
pub open spec fn trail_start(b: Seq<u8>, lo: int, j: int) -> int
    decreases j - lo,
{
    if j <= lo || j > b.len() || !ascii_space(b[j - 1]) {
        j
    } else {
        trail_start(b, lo, j - 1)
    }
}

/// The bytes with ASCII whitespace removed from both ends.
pub open spec fn trim_ascii(b: Seq<u8>) -> Seq<u8> {
    let lo = lead_end(b, 0);
    b.subrange(lo, trail_start(b, lo, b.len() as int))
}

proof fn lemma_lead_end(b: Seq<u8>, i: int)
    requires
        0 <= i <= b.len(),
    ensures
        i <= lead_end(b, i) <= b.len(),
    decreases b.len() - i,
{
    if i < b.len() && ascii_space(b[i]) {
        lemma_lead_end(b, i + 1);
    }
}

proof fn lemma_trail_start(b: Seq<u8>, lo: int, j: int)
    requires
        0 <= lo <= j <= b.len(),
    ensures
        lo <= trail_start(b, lo, j) <= j,
    decreases j - lo,
{
    if j > lo && ascii_space(b[j - 1]) {
        lemma_trail_start(b, lo, j - 1);
    }
}

fn is_ascii_space(b: u8) -> (r: bool)
    ensures
        r == ascii_space(b),
{
    b == 32 || b == 9 || b == 10 || b == 12 || b == 13
}

/// The bytes with ASCII whitespace removed from both ends.
pub fn trim_ascii_bytes(b: &[u8]) -> (r: Vec<u8>)
    ensures
        r@ == trim_ascii(b@),
{
    let mut lo: usize = 0;
    while lo < b.len() && is_ascii_space(b[lo])
        invariant
            lo <= b@.len(),
            lead_end(b@, lo as int) == lead_end(b@, 0),
        decreases b@.len() - lo,
    {
        lo = lo + 1;
    }
    let mut hi: usize = b.len();
    while hi > lo && is_ascii_space(b[hi - 1])
        invariant
            lo <= hi <= b@.len(),
            lo == lead_end(b@, 0),
            trail_start(b@, lo as int, hi as int) == trail_start(b@, lo as int, b@.len() as int),
        decreases hi - lo,
    {
        hi = hi - 1;
    }
    let mut out: Vec<u8> = Vec::new();
    let mut i: usize = lo;
    while i < hi
        invariant
            lo <= i <= hi <= b@.len(),
            out@ == b@.subrange(lo as int, i as int),
        decreases hi - i,
    {
        out.push(b[i]);
        i = i + 1;
        assert(out@ =~= b@.subrange(lo as int, i as int));
    }
    out
}

} // verus!
