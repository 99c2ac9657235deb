use linecount::error::CountError;
use linecount::partition::{count_parallel, count_range, partition, ByteRange};
use linecount::scan::count_newlines;
use linecount::stream::{LineTally, Step};

fn tally_in_chunks(data: &[u8], size: usize) -> usize {
    let mut tally = LineTally::new();
    for chunk in data.chunks(size) {
        assert_eq!(tally.absorb(chunk), Ok(Step::ReadMore));
    }
    match tally.absorb(&[]) {
        Ok(Step::Finished(n)) => n,
        other => panic!("unexpected step {:?}", other),
    }
}

fn sample(len: usize) -> Vec<u8> {
    (0..len)
        .map(|i| if (i * 7 + i / 3) % 11 == 0 { b'\n' } else { b'x' })
        .collect()
}

#[test]
fn scan_counts_three_lines() {
    assert_eq!(count_newlines(b"a\nb\nc\n"), 3);
}

#[test]
fn scan_without_terminator_is_zero() {
    assert_eq!(count_newlines(b"abc"), 0);
}

#[test]
fn scan_empty_is_zero() {
    assert_eq!(count_newlines(b""), 0);
}

#[test]
fn scan_single_terminator_is_one() {
    assert_eq!(count_newlines(b"\n"), 1);
}

#[test]
fn scan_long_buffer_matches_enumeration() {
    let data = sample(10_000);
    let expected = data.iter().filter(|&&b| b == b'\n').count();
    assert!(expected > 0);
    assert_eq!(count_newlines(&data), expected);
}

#[test]
fn partition_last_range_takes_remainder() {
    let ranges = partition(10, 3);
    assert_eq!(
        ranges,
        vec![
            ByteRange { start: 0, end: 3 },
            ByteRange { start: 3, end: 6 },
            ByteRange { start: 6, end: 10 },
        ]
    );
}

#[test]
fn partition_more_parts_than_bytes() {
    let ranges = partition(2, 4);
    assert_eq!(
        ranges,
        vec![
            ByteRange { start: 0, end: 0 },
            ByteRange { start: 0, end: 0 },
            ByteRange { start: 0, end: 0 },
            ByteRange { start: 0, end: 2 },
        ]
    );
}

#[test]
fn partition_single_part_is_whole_input() {
    assert_eq!(partition(7, 1), vec![ByteRange { start: 0, end: 7 }]);
}

#[test]
fn partition_even_division() {
    assert_eq!(
        partition(8, 2),
        vec![ByteRange { start: 0, end: 4 }, ByteRange { start: 4, end: 8 }]
    );
}

#[test]
fn count_range_sees_only_its_bytes() {
    let data = b"\n\nab\n\n";
    assert_eq!(count_range(data, &ByteRange { start: 1, end: 5 }), 2);
    assert_eq!(count_range(data, &ByteRange { start: 2, end: 4 }), 0);
    assert_eq!(count_range(data, &ByteRange { start: 0, end: 6 }), 4);
}

#[test]
fn parallel_counts_three_lines_for_every_worker_count() {
    for workers in 1..=8 {
        assert_eq!(count_parallel(b"a\nb\nc\n", workers), 3);
    }
}

#[test]
fn parallel_empty_input_is_zero() {
    assert_eq!(count_parallel(b"", 4), 0);
}

#[test]
fn parallel_single_terminator_is_one() {
    for workers in 1..=3 {
        assert_eq!(count_parallel(b"\n", workers), 1);
    }
}

#[test]
fn parallel_terminator_on_range_boundary_counted_once() {
    // With two workers the ranges are [0, 3) and [3, 6): each ends on a terminator.
    assert_eq!(partition(6, 2)[0], ByteRange { start: 0, end: 3 });
    assert_eq!(count_parallel(b"ab\ncd\n", 2), 2);
    // And a terminator at the first byte of the second range.
    assert_eq!(count_parallel(b"abc\nde", 2), 1);
}

#[test]
fn parallel_matches_sequential_on_large_input() {
    let data = sample(100_003);
    let sequential = tally_in_chunks(&data, 32768);
    assert_eq!(sequential, count_newlines(&data));
    for workers in [1, 2, 3, 4, 7, 16, 64] {
        assert_eq!(count_parallel(&data, workers), sequential);
    }
}

#[test]
fn tally_empty_input_finishes_at_zero() {
    let mut tally = LineTally::new();
    assert_eq!(tally.absorb(&[]), Ok(Step::Finished(0)));
    assert_eq!(tally.lines(), 0);
}

#[test]
fn tally_counts_terminators_on_buffer_edges() {
    let mut tally = LineTally::new();
    assert_eq!(tally.absorb(b"a\n"), Ok(Step::ReadMore));
    assert_eq!(tally.absorb(b"\nb"), Ok(Step::ReadMore));
    assert_eq!(tally.absorb(b"\n"), Ok(Step::ReadMore));
    assert_eq!(tally.lines(), 3);
    assert_eq!(tally.absorb(b""), Ok(Step::Finished(3)));
}

#[test]
fn tally_scenario_inputs() {
    assert_eq!(tally_in_chunks(b"a\nb\nc\n", 4), 3);
    assert_eq!(tally_in_chunks(b"abc", 2), 0);
    assert_eq!(tally_in_chunks(b"\n", 1), 1);
}

#[test]
fn recount_with_other_buffer_sizes_agrees() {
    let data = sample(5_000);
    let first = tally_in_chunks(&data, 1);
    let second = tally_in_chunks(&data, 4096);
    assert_eq!(first, second);
    assert_eq!(first, count_parallel(&data, 5));
    assert_eq!(count_parallel(&data, 5), count_parallel(&data, 5));
}

#[test]
fn count_error_is_comparable() {
    assert_eq!(CountError::Overflow, CountError::Overflow);
}
