//! The run total across several inputs, and the text of each output line.

use vstd::prelude::*;

use crate::error::CountError;

verus! {

/// The character of the decimal digit `d`.
pub open spec fn digit_char(d: nat) -> char {
    seq!['0', '1', '2', '3', '4', '5', '6', '7', '8', '9'][d as int]
}

/// The decimal digits of `n`, most significant first, without leading zeros.
pub open spec fn decimal(n: nat) -> Seq<char>
    decreases n,
{
    if n < 10 {
        seq![digit_char(n)]
    } else {
        decimal(n / 10).push(digit_char(n % 10))
    }
}

/// The sum of a sequence of counts.
pub open spec fn sum_of(counts: Seq<nat>) -> nat
    decreases counts.len(),
{
    if counts.len() == 0 {
        0
    } else {
        sum_of(counts.drop_last()) + counts.last()
    }
}

/// Relies on `usize::to_string`, which writes an unsigned integer in decimal
/// digits with no sign, padding or leading zeros.
#[verifier::external_body]
fn to_decimal(n: usize) -> (r: String)
    ensures
        r@ == decimal(n as nat),
{
    n.to_string()
}

/// The line printed for input read from standard input: the count alone.
pub fn count_line(count: usize) -> (r: String)
    ensures
        r@ == decimal(count as nat),
{
    to_decimal(count)
}

/// The line printed for one named input: its count, a space, and its path.
pub fn file_line(count: usize, path: &str) -> (r: String)
    ensures
        r@ == decimal(count as nat) + seq![' '] + path@,
{
    proof {
        reveal_strlit(" ");
    }
    to_decimal(count).concat(" ").concat(path)
}

/// The line printed after several named inputs: the sum and the word `total`.
pub fn total_line(total: usize) -> (r: String)
    ensures
        r@ == decimal(total as nat) + seq![' ', 't', 'o', 't', 'a', 'l'],
{
    proof {
        reveal_strlit(" total");
    }
    to_decimal(total).concat(" total")
}

/// The counts of the inputs of one run, in the order they were given, and
/// their sum.
pub struct RunTotal {
    inputs: usize,
    total: usize,
    counts: Ghost<Seq<nat>>,
}

impl View for RunTotal {
    type V = Seq<nat>;

    closed spec fn view(&self) -> Seq<nat> {
        self.counts@
    }
}

impl RunTotal {
    /// The sum held is the sum of the counts added.
    pub closed spec fn wf(&self) -> bool {
        self.total == sum_of(self.counts@)
    }

    /// How many inputs the run was started with.
    pub closed spec fn input_count(&self) -> nat {
        self.inputs as nat
    }

    /// Starts a run over `inputs` named inputs.
    pub fn new(inputs: usize) -> (r: RunTotal)
        ensures
            r.wf(),
            r@ == Seq::<nat>::empty(),
            r.input_count() == inputs,
    {
        RunTotal { inputs, total: 0, counts: Ghost(Seq::empty()) }
    }

    /// Adds the count of the next input, unless the sum would no longer fit
    /// in a `usize`, in which case the run is left as it was.
    pub fn add(&mut self, count: usize) -> (r: Result<(), CountError>)
        requires
            old(self).wf(),
        ensures
            final(self).wf(),
            final(self).input_count() == old(self).input_count(),
            sum_of(old(self)@) + count <= usize::MAX ==> r == Ok::<(), CountError>(())
                && final(self)@ == old(self)@.push(count as nat),
            sum_of(old(self)@) + count > usize::MAX ==> r == Err::<(), CountError>(
                CountError::Overflow,
            ) && final(self)@ == old(self)@,
    {
        match self.total.checked_add(count) {
            Some(sum) => {
                let ghost added = self.counts@.push(count as nat);
                assert(added.drop_last() =~= self.counts@);
                self.total = sum;
                self.counts = Ghost(added);
                Ok(())
            },
            None => Err(CountError::Overflow),
        }
    }

    /// The sum of the counts added so far.
    pub fn total(&self) -> (r: usize)
        requires
            self.wf(),
        ensures
            r == sum_of(self@),
    {
        self.total
    }

    /// The closing line of the run: the total, printed only when the run
    /// was over more than one input.
    pub fn summary(&self) -> (r: Option<String>)
        requires
            self.wf(),
        ensures
            self.input_count() > 1 ==> r is Some && r->Some_0@ == decimal(sum_of(self@))
                + seq![' ', 't', 'o', 't', 'a', 'l'],
            self.input_count() <= 1 ==> r is None,
    {
        if self.inputs > 1 {
            Some(total_line(self.total))
        } else {
            None
        }
    }
}

} // verus!
