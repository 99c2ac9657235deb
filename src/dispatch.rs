//! Classifying an input from its file status, and choosing the strategy that
//! counts it.

use vstd::prelude::*;

verus! {

/// The bits of a file mode that hold the file's type.
pub const FILE_TYPE_MASK: u32 = 0o170000;

/// The file type of a regular file.
pub const REGULAR_FILE: u32 = 0o100000;

/// What an input is, as far as counting is concerned.
#[derive(Clone, Copy, Debug, PartialEq, Eq, Structural)]
pub enum InputKind {
    /// A regular file whose length in bytes is known.
    Regular(usize),
    /// A pipe, a device, or anything else read as a stream.
    Stream,
}

/// How one input is counted.
#[derive(Clone, Copy, Debug, PartialEq, Eq, Structural)]
pub enum Strategy {
    /// Read through a buffer until the input ends.
    Sequential,
    /// Map `len` bytes and divide them among `workers` concurrent scans.
    Parallel { len: usize, workers: usize },
}

/// The kind of an input with file mode `mode` and reported size `size`: a
/// regular file of a size that a `usize` holds, or else a stream.
pub open spec fn kind_of(mode: u32, size: i64) -> InputKind {
    if mode & FILE_TYPE_MASK == REGULAR_FILE && 0 <= size <= usize::MAX {
        InputKind::Regular(size as usize)
    } else {
        InputKind::Stream
    }
}

/// The parallel strategy serves a non-empty regular file when more than one
/// worker is available; every other input is read sequentially.
pub open spec fn strategy_for(kind: InputKind, parallelism: int) -> Strategy {
    match kind {
        InputKind::Regular(len) => if len > 0 && parallelism > 1 {
            Strategy::Parallel { len, workers: parallelism as usize }
        } else {
            Strategy::Sequential
        },
        InputKind::Stream => Strategy::Sequential,
    }
}

/// Classifies an input from the mode and size that its file status reports.
pub fn classify(mode: u32, size: i64) -> (r: InputKind)
    ensures
        r == kind_of(mode, size),
{
    if mode & FILE_TYPE_MASK == REGULAR_FILE && 0 <= size && size as u64 <= usize::MAX as u64 {
        InputKind::Regular(size as usize)
    } else {
        InputKind::Stream
    }
}

/// Chooses the strategy for an input of kind `kind` given `parallelism`
/// processing units.
pub fn choose_strategy(kind: InputKind, parallelism: usize) -> (r: Strategy)
    ensures
        r == strategy_for(kind, parallelism as int),
{
    match kind {
        InputKind::Regular(len) => if len > 0 && parallelism > 1 {
            Strategy::Parallel { len, workers: parallelism }
        } else {
            Strategy::Sequential
        },
        InputKind::Stream => Strategy::Sequential,
    }
}

/// Relies on `num_cpus::get`, the number of processing units this process
/// may run on, which its documentation promises is at least 1.
#[verifier::external_body]
fn available_parallelism() -> (r: usize)
    ensures
        r >= 1,
{
    num_cpus::get()
}

/// Chooses the strategy for an input of kind `kind` on this machine.
pub fn plan(kind: InputKind) -> (r: Strategy)
    ensures
        exists|p: int| p >= 1 && r == #[trigger] strategy_for(kind, p),
        kind == InputKind::Stream ==> r == Strategy::Sequential,
        kind == InputKind::Regular(0) ==> r == Strategy::Sequential,
        r matches Strategy::Parallel { len, workers } ==> kind == InputKind::Regular(len) && len
            > 0 && workers >= 2,
{
    let parallelism = available_parallelism();
    let r = choose_strategy(kind, parallelism);
    assert(strategy_for(kind, parallelism as int) == r);
    r
}

} // verus!
