//! The library's own failure.

use vstd::prelude::*;

verus! {

/// A count that would not fit in a `usize`.
#[derive(Clone, Copy, Debug, PartialEq, Eq, Structural)]
pub enum CountError {
    Overflow,
}

} // verus!
