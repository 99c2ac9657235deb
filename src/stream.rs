//! The sequential strategy: a running tally fed with each buffer that a read
//! filled, until a read fills nothing.

use vstd::prelude::*;

use crate::error::CountError;
use crate::partition::{division_spans, lemma_division_preserves_count, spans_count};
use crate::scan::{
    count_newlines, lemma_count_concat, lemma_count_is_enumeration, newline_count,
    newline_positions,
};

verus! {

/// What the reader does after handing a buffer to the tally.
#[derive(Clone, Copy, Debug, PartialEq, Eq, Structural)]
pub enum Step {
    /// The buffer held bytes: read again.
    ReadMore,
    /// The buffer was empty, so the input has ended; this is its count.
    Finished(usize),
}

/// The terminators seen so far in one input, and (as ghost state) the bytes
/// that were consumed.
pub struct LineTally {
    lines: usize,
    consumed: Ghost<Seq<u8>>,
}

impl View for LineTally {
    type V = Seq<u8>;

    closed spec fn view(&self) -> Seq<u8> {
        self.consumed@
    }
}

impl LineTally {
    /// The tally holds the count of exactly the bytes it consumed.
    pub closed spec fn wf(&self) -> bool {
        self.lines == newline_count(self.consumed@)
    }

    /// A tally that has consumed nothing.
    pub fn new() -> (r: LineTally)
        ensures
            r.wf(),
            r@ == Seq::<u8>::empty(),
    {
        let r = LineTally { lines: 0, consumed: Ghost(Seq::empty()) };
        assert(r.consumed@.filter(|b: u8| b == crate::scan::NEWLINE) =~= Seq::<u8>::empty()) by {
            reveal(Seq::filter);
        }
        r
    }

    /// The terminators among the bytes consumed so far.
    pub fn lines(&self) -> (r: usize)
        requires
            self.wf(),
        ensures
            r == newline_count(self@),
    {
        self.lines
    }

    /// Takes the filled part of one read. An empty buffer marks the end of
    /// the input and yields the total; otherwise its terminators are added,
    /// unless the total would no longer fit in a `usize`, in which case the
    /// tally is left as it was.
    pub fn absorb(&mut self, filled: &[u8]) -> (r: Result<Step, CountError>)
        requires
            old(self).wf(),
        ensures
            final(self).wf(),
            filled@.len() == 0 ==> r == Ok::<Step, CountError>(Step::Finished(newline_count(old(self)@) as usize))
                && final(self)@ == old(self)@,
            filled@.len() > 0 && newline_count(old(self)@) + newline_count(filled@) <= usize::MAX
                ==> r == Ok::<Step, CountError>(Step::ReadMore) && final(self)@ == old(self)@
                + filled@,
            filled@.len() > 0 && newline_count(old(self)@) + newline_count(filled@) > usize::MAX
                ==> r == Err::<Step, CountError>(CountError::Overflow) && final(self)@ == old(
                self,
            )@,
    {
        if filled.len() == 0 {
            return Ok(Step::Finished(self.lines));
        }
        let found = count_newlines(filled);
        match self.lines.checked_add(found) {
            Some(sum) => {
                proof {
                    lemma_count_concat(self.consumed@, filled@);
                }
                self.lines = sum;
                self.consumed = Ghost(self.consumed@ + filled@);
                Ok(Step::ReadMore)
            },
            None => Err(CountError::Overflow),
        }
    }
}

/// The sum of the terminator counts of each buffer.
pub open spec fn chunks_count(chunks: Seq<Seq<u8>>) -> nat
    decreases chunks.len(),
{
    if chunks.len() == 0 {
        0
    } else {
        newline_count(chunks.first()) + chunks_count(chunks.drop_first())
    }
}

/// Counting buffer by buffer, as the tally does, counts the terminators of
/// the concatenated input, however the reads cut it: no terminator is split
/// across buffers, so no state passes from one buffer to the next.
pub proof fn lemma_chunked_count(chunks: Seq<Seq<u8>>)
    ensures
        chunks_count(chunks) == newline_count(chunks.flatten()),
    decreases chunks.len(),
{
    if chunks.len() == 0 {
        assert(chunks.flatten().filter(|b: u8| b == crate::scan::NEWLINE) =~= Seq::<u8>::empty())
            by {
            reveal(Seq::filter);
        }
    } else {
        lemma_chunked_count(chunks.drop_first());
        lemma_count_concat(chunks.first(), chunks.drop_first().flatten());
    }
}

/// The count that the sequential strategy reaches over any cut of an input
/// into buffers equals the number of terminator positions found by direct
/// enumeration of the input's bytes.
pub proof fn lemma_sequential_matches_enumeration(chunks: Seq<Seq<u8>>)
    ensures
        newline_positions(chunks.flatten()).finite(),
        chunks_count(chunks) == newline_positions(chunks.flatten()).len(),
{
    lemma_chunked_count(chunks);
    lemma_count_is_enumeration(chunks.flatten());
}

/// Counting the same input twice gives the same result, whether it is read
/// in different buffer sizes each time or divided into any number of ranges.
pub proof fn lemma_recount_agrees(first: Seq<Seq<u8>>, second: Seq<Seq<u8>>, parts: int)
    requires
        first.flatten() == second.flatten(),
        parts >= 1,
    ensures
        chunks_count(first) == chunks_count(second),
        chunks_count(first) == spans_count(
            first.flatten(),
            division_spans(first.flatten().len() as int, parts),
        ),
{
    lemma_chunked_count(first);
    lemma_chunked_count(second);
    lemma_division_preserves_count(first.flatten(), parts);
}

} // verus!
