//! Impulses as text: one number per line.
//!
//! How a line reads as a number is up to the number type. A line that does
//! not read as a number is passed over. What is left must be exactly as many
//! numbers as an impulse is long.

use crate::pipeline::FIR_IMPULSE_LEN;
use vstd::prelude::*;

verus! {

/// A number that can be read from a line of text.
pub trait FromLine: Sized {
    /// The number that `line` holds, if it holds one.
    fn from_line(line: &str) -> Option<Self>;
}

/// `S::from_line(line)` may return `outcome`.
pub open spec fn reads_as<S: FromLine>(line: &str, outcome: Option<S>) -> bool {
    call_ensures(S::from_line, (line,), outcome)
}

/// `outcomes` is what the lines read as, line by line.
pub open spec fn is_reading<S: FromLine>(lines: Seq<&str>, outcomes: Seq<Option<S>>) -> bool {
    &&& outcomes.len() == lines.len()
    &&& forall|i: int| 0 <= i < lines.len() ==> reads_as(lines[i], #[trigger] outcomes[i])
}

/// The numbers among `outcomes`, in order.
pub open spec fn values_of<S>(outcomes: Seq<Option<S>>) -> Seq<S>
    decreases outcomes.len(),
{
    if outcomes.len() == 0 {
        Seq::empty()
    } else {
        match outcomes.last() {
            Some(value) => values_of(outcomes.drop_last()).push(value),
            None => values_of(outcomes.drop_last()),
        }
    }
}

/// The text held another count of numbers than an impulse is long.
#[derive(Clone, Copy, Debug, PartialEq, Eq)]
pub struct ImpulseError {
    /// How many numbers the text held.
    pub found: usize,
}

/// Reads an impulse from the lines of a text. Lines that do not read as a
/// number are passed over; the numbers of the others, in order, are the
/// impulse, provided that there are exactly `FIR_IMPULSE_LEN` of them.
pub fn parse_impulse<S: FromLine>(lines: &Vec<&str>) -> (r: Result<Vec<S>, ImpulseError>)
    ensures
        exists|outcomes: Seq<Option<S>>|
            (#[trigger] is_reading(lines@, outcomes)) && match r {
                Ok(impulse) => impulse@ == values_of(outcomes) && impulse@.len()
                    == FIR_IMPULSE_LEN,
                Err(e) => e.found == values_of(outcomes).len() && e.found != FIR_IMPULSE_LEN,
            },
{
    let mut impulse: Vec<S> = Vec::new();
    let ghost mut outcomes: Seq<Option<S>> = Seq::empty();
    let mut i: usize = 0;
    while i < lines.len()
        invariant
            i <= lines.len(),
            is_reading(lines@.take(i as int), outcomes),
            impulse@ == values_of(outcomes),
        decreases lines.len() - i,
    {
        let outcome = S::from_line(lines[i]);
        proof {
            assert(outcomes.push(outcome).drop_last() == outcomes);
            outcomes = outcomes.push(outcome);
        }
        match outcome {
            Some(value) => {
                impulse.push(value);
            },
            None => {},
        }
        i += 1;
    }
    assert(lines@.take(lines@.len() as int) == lines@);
    if impulse.len() == FIR_IMPULSE_LEN {
        Ok(impulse)
    } else {
        Err(ImpulseError { found: impulse.len() })
    }
}

} // verus!
