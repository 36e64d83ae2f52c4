//! Lines and columns of byte offsets, as the report printers show them.
use vstd::prelude::*;

verus! {

/// The number of line feeds in `b`.
pub open spec fn newlines(b: Seq<u8>) -> nat
    decreases b.len(),
{
    if b.len() == 0 {
        0
    } else {
        newlines(b.drop_last()) + if b.last() == 10 {
            1nat
        } else {
            0nat
        }
    }
}

/// The index of the last line feed in `b`, if any.
pub open spec fn last_newline(b: Seq<u8>) -> Option<nat>
    decreases b.len(),
{
    if b.len() == 0 {
        None
    } else if b.last() == 10 {
        Some((b.len() - 1) as nat)
    } else {
        last_newline(b.drop_last())
    }
}

proof fn lemma_newlines_bound(b: Seq<u8>)
    ensures
        newlines(b) <= b.len(),
    decreases b.len(),
{
    if b.len() > 0 {
        lemma_newlines_bound(b.drop_last());
    }
}

/// The line, counted from one, of byte `at` of `src`.
pub fn line(at: u32, src: &[u8]) -> (r: u64)
    requires
        at <= src@.len(),
    ensures
        r == newlines(src@.take(at as int)) + 1,
{
    let mut n: u64 = 0;
    let mut i: usize = 0;
    while i < at as usize
        invariant
            i <= at <= src@.len(),
            n == newlines(src@.take(i as int)),
        decreases at - i,
    {
        assert(src@.take(i + 1).drop_last() =~= src@.take(i as int));
        proof {
            lemma_newlines_bound(src@.take(i as int));
        }
        if src[i] == 10 {
            n = n + 1;
        }
        i = i + 1;
    }
    proof {
        lemma_newlines_bound(src@.take(at as int));
    }
    n + 1
}

/// The column, counted from one, of byte `at` of `src`: its distance from the
/// last line feed before it, or from the start of the text.
pub fn column(at: u32, src: &[u8]) -> (r: u64)
    requires
        at <= src@.len(),
    ensures
        r == match last_newline(src@.take(at as int)) {
            Some(c) => at - c,
            None => at + 1,
        },
{
    let mut i: usize = at as usize;
    assert(src@.take(at as int).take(i as int) =~= src@.take(at as int));
    while i > 0
        invariant
            i <= at <= src@.len(),
            last_newline(src@.take(at as int)) == last_newline(src@.take(i as int)),
            forall|j: int| i <= j < at ==> src@[j] != 10,
        decreases i,
    {
        assert(src@.take(i as int).drop_last() =~= src@.take(i - 1));
        if src[i - 1] == 10 {
            return (at as u64) - ((i - 1) as u64);
        }
        i = i - 1;
    }
    at as u64 + 1
}

} // verus!
