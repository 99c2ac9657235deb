//! The byte-scan primitive and the spec functions that every other module
//! states its contracts over.

use vstd::prelude::*;

verus! {

/// The line-terminator byte, `b'\n'`.
pub const NEWLINE: u8 = 10;

/// How many bytes of `s` equal `needle`.
pub open spec fn occurrences(s: Seq<u8>, needle: u8) -> nat {
    s.filter(|b: u8| b == needle).len()
}

/// How many line terminators `s` holds.
pub open spec fn newline_count(s: Seq<u8>) -> nat {
    occurrences(s, NEWLINE)
}

/// The positions of `s` that hold a line terminator, enumerated directly.
pub open spec fn newline_positions(s: Seq<u8>) -> Set<int> {
    Set::new(|i: int| 0 <= i < s.len() && s[i] == NEWLINE)
}

/// Relies on `bytecount::count`, which counts the bytes of `haystack` that
/// equal `needle`.
pub assume_specification[ bytecount::count ](haystack: &[u8], needle: u8) -> (r: usize)
    ensures
        r == occurrences(haystack@, needle),
;

/// Counts the line terminators in `buf`.
pub fn count_newlines(buf: &[u8]) -> (r: usize)
    ensures
        r == newline_count(buf@),
{
    bytecount::count(buf, NEWLINE)
}

/// Counting distributes over concatenation: a terminator belongs to exactly
/// one of the two parts.
pub proof fn lemma_count_concat(a: Seq<u8>, b: Seq<u8>)
    ensures
        newline_count(a + b) == newline_count(a) + newline_count(b),
{
    Seq::filter_distributes_over_add(a, b, |x: u8| x == NEWLINE);
}

/// A sequence never holds more terminators than bytes.
pub proof fn lemma_count_bounded(s: Seq<u8>)
    ensures
        newline_count(s) <= s.len(),
{
    s.lemma_filter_len(|x: u8| x == NEWLINE);
}

/// The count equals the number of terminator positions found by direct
/// enumeration of the bytes.
pub proof fn lemma_count_is_enumeration(s: Seq<u8>)
    ensures
        newline_positions(s).finite(),
        newline_count(s) == newline_positions(s).len(),
    decreases s.len(),
{
    let pred = |x: u8| x == NEWLINE;
    if s.len() == 0 {
        assert(newline_positions(s) =~= Set::<int>::empty());
        assert(s.filter(pred) =~= Seq::<u8>::empty()) by {
            reveal(Seq::filter);
        }
    } else {
        let init = s.drop_last();
        lemma_count_is_enumeration(init);
        assert(s =~= init + seq![s.last()]);
        Seq::filter_distributes_over_add(init, seq![s.last()], pred);
        reveal(Seq::filter);
        assert(seq![s.last()].drop_last() =~= Seq::<u8>::empty());
        let last = s.len() - 1;
        if s.last() == NEWLINE {
            assert(newline_positions(s) =~= newline_positions(init).insert(last));
            assert(!newline_positions(init).contains(last));
        } else {
            assert(newline_positions(s) =~= newline_positions(init));
        }
    }
}

} // verus!
