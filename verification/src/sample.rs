//! Frames of audio and the arithmetic they are made of.
//!
//! The library never looks inside a sample value. Whoever uses it supplies
//! the number type together with its zero, its sum, its product and its test
//! for zero. Contracts speak of these four through the relations below: a
//! value "is a sum of a and b" when the number type's own `plus` may return
//! it for a and b. For a number type whose operations state what they
//! compute, such as `i64` here, the relations pin every result.

use vstd::prelude::*;

verus! {

/// The arithmetic of one audio channel value.
pub trait Scalar: Copy {
    /// The additive identity, silence.
    fn zero() -> Self;

    /// `self + other`.
    fn plus(self, other: Self) -> Self;

    /// `self * other`.
    fn times(self, other: Self) -> Self;

    /// Whether `self` counts as silence.
    fn is_zero(self) -> bool;
}

/// `v` is a value that `S::zero` returns.
pub open spec fn is_zero_of<S: Scalar>(v: S) -> bool {
    call_ensures(S::zero, (), v)
}

/// `r` is a value that `a.plus(b)` returns.
pub open spec fn is_sum<S: Scalar>(a: S, b: S, r: S) -> bool {
    call_ensures(S::plus, (a, b), r)
}

/// `r` is a value that `a.times(b)` returns.
pub open spec fn is_product<S: Scalar>(a: S, b: S, r: S) -> bool {
    call_ensures(S::times, (a, b), r)
}

/// `v.is_zero()` may answer `verdict`.
pub open spec fn tests_zero<S: Scalar>(v: S, verdict: bool) -> bool {
    call_ensures(S::is_zero, (v,), verdict)
}

/// `r` is what one multiply-accumulate step leaves: `acc + h * x`, the
/// product taken first.
pub open spec fn is_mac<S: Scalar>(acc: S, h: S, x: S, r: S) -> bool {
    exists|p: S| is_product(h, x, p) && is_sum(acc, p, r)
}

/// Every channel of `data` is a zero of the number type.
pub open spec fn is_zero_frame<S: Scalar, const N: usize>(data: [S; N]) -> bool {
    forall|c: int| 0 <= c < N ==> is_zero_of(#[trigger] data[c])
}

/// Every channel of `data` tested as silence.
pub open spec fn is_silent<S: Scalar, const N: usize>(data: [S; N]) -> bool {
    forall|c: int| 0 <= c < N ==> tests_zero(#[trigger] data[c], true)
}

/// Some channel of `data` tested as not silent.
pub open spec fn is_audible<S: Scalar, const N: usize>(data: [S; N]) -> bool {
    exists|c: int| 0 <= c < N && tests_zero(#[trigger] data[c], false)
}

/// Whole numbers with wrapping sum and product: an exact number type, on
/// which every relation above is a function.
impl Scalar for i64 {
    fn zero() -> (r: i64)
        ensures
            r == 0,
    {
        0
    }

    fn plus(self, other: i64) -> (r: i64)
        ensures
            r == self.wrapping_add(other),
    {
        self.wrapping_add(other)
    }

    fn times(self, other: i64) -> (r: i64)
        ensures
            r == self.wrapping_mul(other),
    {
        self.wrapping_mul(other)
    }

    fn is_zero(self) -> (r: bool)
        ensures
            r == (self == 0),
    {
        self == 0
    }
}

/// One frame: a value per channel, captured at `timestamp`.
///
/// `timestamp` counts nanoseconds on the session's monotonic clock.
#[derive(Debug)]
pub struct Sample<S, const NUM_CHANNELS: usize> {
    pub timestamp: u64,
    pub data: [S; NUM_CHANNELS],
}

impl<S: Copy, const NUM_CHANNELS: usize> Copy for Sample<S, NUM_CHANNELS> {

}

impl<S: Copy, const NUM_CHANNELS: usize> Clone for Sample<S, NUM_CHANNELS> {
    fn clone(&self) -> (twin: Self)
        ensures
            twin == *self,
    {
        Sample { timestamp: self.timestamp, data: self.data }
    }
}

impl<S: Scalar, const NUM_CHANNELS: usize> Sample<S, NUM_CHANNELS> {
    /// A silent frame captured at `timestamp`.
    pub fn new(timestamp: u64) -> (sample: Self)
        ensures
            sample.timestamp == timestamp,
            is_zero_frame(sample.data),
    {
        let z = S::zero();
        Sample { timestamp, data: [z; NUM_CHANNELS] }
    }
}

} // verus!
