//! The parallel strategy: a fixed division of `[0, len)` into contiguous
//! ranges, one scan per range on a worker pool, and a sum of the partial
//! counts.

use rayon::iter::{IntoParallelRefIterator, ParallelIterator};
use vstd::prelude::*;

use crate::scan::{count_newlines, lemma_count_bounded, lemma_count_concat, newline_count};

verus! {

/// A half-open span `[start, end)` of byte offsets into one input.
#[derive(Clone, Copy, Debug, PartialEq, Eq, Structural)]
pub struct ByteRange {
    pub start: usize,
    pub end: usize,
}

impl View for ByteRange {
    type V = (int, int);

    open spec fn view(&self) -> (int, int) {
        (self.start as int, self.end as int)
    }
}

/// The spans of a list of ranges.
pub open spec fn spans_of(ranges: Seq<ByteRange>) -> Seq<(int, int)> {
    ranges.map_values(|r: ByteRange| r@)
}

/// Every span lies inside `[0, len)` and is not reversed.
pub open spec fn spans_within(spans: Seq<(int, int)>, len: int) -> bool {
    forall|i: int| 0 <= i < spans.len() ==> 0 <= #[trigger] spans[i].0 <= spans[i].1 <= len
}

/// The sum of the terminator counts of `data` over each span.
pub open spec fn spans_count(data: Seq<u8>, spans: Seq<(int, int)>) -> nat
    decreases spans.len(),
{
    if spans.len() == 0 {
        0
    } else {
        let last = spans.last();
        spans_count(data, spans.drop_last()) + newline_count(data.subrange(last.0, last.1))
    }
}

/// The division rule: `parts` ranges of `len / parts` bytes each, the last
/// of which runs on to `len` and so takes the remainder.
pub open spec fn division_spans(len: int, parts: int) -> Seq<(int, int)> {
    Seq::new(
        parts as nat,
        |i: int|
            (i * (len / parts), if i == parts - 1 {
                len
            } else {
                (i + 1) * (len / parts)
            }),
    )
}

proof fn lemma_chunk_offsets(len: int, parts: int, i: int)
    requires
        len >= 0,
        parts >= 1,
        0 <= i <= parts,
    ensures
        0 <= i * (len / parts) <= len,
        i < parts ==> (i + 1) * (len / parts) == i * (len / parts) + len / parts,
{
    let chunk = len / parts;
    assert(chunk >= 0 && chunk * parts <= len) by (nonlinear_arith)
        requires
            chunk == len / parts,
            len >= 0,
            parts >= 1,
    ;
    assert(0 <= i * chunk <= parts * chunk) by (nonlinear_arith)
        requires
            0 <= i <= parts,
            chunk >= 0,
    ;
    assert((i + 1) * chunk == i * chunk + chunk) by (nonlinear_arith);
}

/// Every span of the division lies inside `[0, len)` and they follow each
/// other without gap or overlap, from 0 to `len`.
pub proof fn lemma_division_tiles(len: int, parts: int)
    requires
        len >= 0,
        parts >= 1,
    ensures
        spans_within(division_spans(len, parts), len),
        division_spans(len, parts)[0].0 == 0,
        division_spans(len, parts)[parts - 1].1 == len,
        forall|i: int|
            0 <= i < parts - 1 ==> #[trigger] division_spans(len, parts)[i].1 == division_spans(
                len,
                parts,
            )[i + 1].0,
{
    let spans = division_spans(len, parts);
    assert forall|i: int| 0 <= i < spans.len() implies 0 <= #[trigger] spans[i].0 <= spans[i].1
        <= len by {
        lemma_chunk_offsets(len, parts, i);
        lemma_chunk_offsets(len, parts, i + 1);
    }
    assert(0 * (len / parts) == 0) by (nonlinear_arith);
}

proof fn lemma_prefix_count(data: Seq<u8>, spans: Seq<(int, int)>, k: int)
    requires
        spans_within(spans, data.len() as int),
        spans.len() >= 1,
        spans[0].0 == 0,
        forall|i: int| 0 <= i < spans.len() - 1 ==> #[trigger] spans[i].1 == spans[i + 1].0,
        1 <= k <= spans.len(),
    ensures
        spans_count(data, spans.subrange(0, k)) == newline_count(data.subrange(0, spans[k - 1].1)),
    decreases k,
{
    let pre = spans.subrange(0, k);
    assert(pre.drop_last() =~= spans.subrange(0, k - 1));
    let (s, e) = spans[k - 1];
    assert(pre.last() == spans[k - 1]);
    assert(spans_count(data, pre) == spans_count(data, pre.drop_last()) + newline_count(
        data.subrange(s, e),
    ));
    if k == 1 {
        assert(pre.drop_last() =~= Seq::<(int, int)>::empty());
        assert(spans_count(data, pre.drop_last()) == 0);
    } else {
        lemma_prefix_count(data, spans, k - 1);
        assert(spans[k - 2].1 == s);
        assert(data.subrange(0, e) =~= data.subrange(0, s) + data.subrange(s, e));
        lemma_count_concat(data.subrange(0, s), data.subrange(s, e));
    }
}

/// Spans that tile `[0, data.len())` in order, with no gap and no overlap,
/// count every terminator of `data` exactly once.
pub proof fn lemma_tiling_count(data: Seq<u8>, spans: Seq<(int, int)>)
    requires
        spans.len() >= 1,
        spans_within(spans, data.len() as int),
        spans[0].0 == 0,
        spans[spans.len() - 1].1 == data.len(),
        forall|i: int| 0 <= i < spans.len() - 1 ==> #[trigger] spans[i].1 == spans[i + 1].0,
    ensures
        spans_count(data, spans) == newline_count(data),
{
    lemma_prefix_count(data, spans, spans.len() as int);
    assert(spans.subrange(0, spans.len() as int) =~= spans);
    assert(data.subrange(0, data.len() as int) =~= data);
}

/// Dividing an input into any number `parts >= 1` of ranges by the division
/// rule and summing the terminator counts of the ranges gives the count of
/// the whole input: the parallel and sequential strategies agree.
pub proof fn lemma_division_preserves_count(data: Seq<u8>, parts: int)
    requires
        parts >= 1,
    ensures
        spans_count(data, division_spans(data.len() as int, parts)) == newline_count(data),
{
    lemma_division_tiles(data.len() as int, parts);
    lemma_tiling_count(data, division_spans(data.len() as int, parts));
}

/// Divides `[0, len)` into `parts` ranges by the division rule.
pub fn partition(len: usize, parts: usize) -> (r: Vec<ByteRange>)
    requires
        parts >= 1,
    ensures
        spans_of(r@) == division_spans(len as int, parts as int),
{
    let chunk: usize = len / parts;
    let mut ranges: Vec<ByteRange> = Vec::new();
    let mut i: usize = 0;
    while i < parts - 1
        invariant
            parts >= 1,
            chunk == len / parts,
            i <= parts - 1,
            spans_of(ranges@) =~= division_spans(len as int, parts as int).subrange(0, i as int),
        decreases parts - 1 - i,
    {
        proof {
            lemma_chunk_offsets(len as int, parts as int, i as int);
            lemma_chunk_offsets(len as int, parts as int, i as int + 1);
        }
        let start: usize = i * chunk;
        let end: usize = start + chunk;
        let ghost before = ranges@;
        ranges.push(ByteRange { start, end });
        assert(spans_of(ranges@) =~= spans_of(before).push((start as int, end as int)));
        i = i + 1;
    }
    proof {
        lemma_chunk_offsets(len as int, parts as int, i as int);
    }
    let ghost before = ranges@;
    ranges.push(ByteRange { start: i * chunk, end: len });
    assert(spans_of(ranges@) =~= spans_of(before).push(((i * chunk) as int, len as int)));
    assert(spans_of(ranges@) =~= division_spans(len as int, parts as int));
    ranges
}

/// Counts the line terminators of `data` inside `range`.
pub fn count_range(data: &[u8], range: &ByteRange) -> (r: usize)
    requires
        range.start <= range.end <= data@.len(),
    ensures
        r == newline_count(data@.subrange(range.start as int, range.end as int)),
{
    count_newlines(vstd::slice::slice_subrange(data, range.start, range.end))
}

/// Relies on rayon's `par_iter().map(..).sum()`: every range is scanned once
/// by `count_range`, on the pool's workers, and the partial counts are added
/// in some order; as addition is commutative and associative the total is the
/// plain sum.
#[verifier::external_body]
fn sum_ranges_parallel(data: &[u8], ranges: &Vec<ByteRange>) -> (r: usize)
    requires
        spans_within(spans_of(ranges@), data@.len() as int),
        spans_count(data@, spans_of(ranges@)) <= usize::MAX,
    ensures
        r == spans_count(data@, spans_of(ranges@)),
{
    ranges.par_iter().map(|range| count_range(data, range)).sum()
}

/// Counts the line terminators of `data` by dividing it into `workers`
/// ranges, scanning them concurrently and adding up the partial counts.
pub fn count_parallel(data: &[u8], workers: usize) -> (r: usize)
    requires
        workers >= 1,
    ensures
        r == newline_count(data@),
{
    let ranges = partition(data.len(), workers);
    proof {
        lemma_division_tiles(data@.len() as int, workers as int);
        lemma_division_preserves_count(data@, workers as int);
        lemma_count_bounded(data@);
    }
    sum_ranges_parallel(data, &ranges)
}

} // verus!
