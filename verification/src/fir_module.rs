//! A streaming multi-channel FIR filter in direct form.
//!
//! Each channel has its own impulse; all impulses that are not empty share
//! one length, the filter's length. The filter keeps the frames it was
//! given in a delay line, oldest first. Once the line holds as many frames
//! as the filter is long, a pop takes the oldest frame away and returns one
//! output frame: per channel the sum of tap `t` times the frame at place `t`
//! of the line, accumulated from tap 0 upwards.

use crate::sample::is_audible;
use crate::sample::is_mac;
use crate::sample::is_product;
use crate::sample::is_silent;
use crate::sample::is_sum;
use crate::sample::is_zero_frame;
use crate::sample::is_zero_of;
use crate::sample::tests_zero;
use crate::sample::Sample;
use crate::sample::Scalar;
use std::collections::VecDeque;
use vstd::prelude::*;

verus! {

/// Why a bank of impulses was turned down.
#[derive(Clone, Copy, Debug, PartialEq, Eq)]
pub enum FirError {
    /// The bank has more impulses than the filter has channels.
    TooManyImpulses,
    /// Two impulses that are not empty differ in length.
    LengthMismatch,
}

/// All impulses of the bank that are not empty have the same length.
pub open spec fn lengths_agree<S>(impulses: Seq<Vec<S>>) -> bool {
    forall|a: int, b: int|
        0 <= a < impulses.len() && 0 <= b < impulses.len() && (#[trigger] impulses[a]).len() > 0
            && (#[trigger] impulses[b]).len() > 0 ==> impulses[a].len() == impulses[b].len()
}

/// The length of the first impulse among the first `upto` that is not
/// empty; 0 when all of them are empty.
pub open spec fn common_len<S>(impulses: Seq<Vec<S>>, upto: nat) -> nat
    decreases upto,
{
    if upto == 0 {
        0
    } else {
        let before = common_len(impulses, (upto - 1) as nat);
        if before > 0 {
            before
        } else {
            impulses[upto - 1]@.len()
        }
    }
}

/// `taps` is the coefficient matrix of the bank: one row per tap, one column
/// per channel. Column `c` holds impulse `c`, and zeros where the bank gives
/// channel `c` no impulse or an empty one.
pub open spec fn is_tap_matrix<S: Scalar, const N: usize>(
    impulses: Seq<Vec<S>>,
    taps: Seq<[S; N]>,
) -> bool {
    &&& taps.len() == common_len(impulses, impulses.len())
    &&& forall|t: int, c: int|
        0 <= t < taps.len() && 0 <= c < N ==> if c < impulses.len() && impulses[c].len() > 0 {
            (#[trigger] taps[t][c]) == impulses[c][t]
        } else {
            is_zero_of(#[trigger] taps[t][c])
        }
}

/// A line of `depth` frames lets a filter of length `len` produce output.
pub open spec fn primed(len: nat, depth: nat) -> bool {
    depth >= len && depth > 0
}

/// The delay line after a pop on `line` in a filter of length `len`: the
/// oldest frame leaves when the line is primed, else nothing changes.
pub open spec fn after_pop<T>(len: nat, line: Seq<T>) -> Seq<T> {
    if primed(len, line.len()) {
        line.skip(1)
    } else {
        line
    }
}

/// `sums` are the running sums of a direct-form accumulation for channel
/// `c`: the first is a zero, and each next one adds tap `t` times channel `c`
/// of frame `t` to the one before, for `t` from 0 upwards.
pub open spec fn is_running_sum<S: Scalar, const N: usize>(
    taps: Seq<[S; N]>,
    line: Seq<Sample<S, N>>,
    c: int,
    sums: Seq<S>,
) -> bool {
    &&& sums.len() > 0
    &&& is_zero_of(sums[0])
    &&& forall|t: int|
        0 <= t < sums.len() - 1 ==> #[trigger] is_mac(
            sums[t],
            taps[t][c],
            line[t].data[c],
            sums[t + 1],
        )
}

/// `r` is the direct-form sum for channel `c` over the first `n` taps:
/// starting from zero, tap `t` times channel `c` of frame `t` is added for
/// `t` from 0 up to `n - 1`, in that order.
pub open spec fn convolves<S: Scalar, const N: usize>(
    taps: Seq<[S; N]>,
    line: Seq<Sample<S, N>>,
    c: int,
    n: nat,
    r: S,
) -> bool {
    exists|sums: Seq<S>|
        (#[trigger] is_running_sum(taps, line, c, sums)) && sums.len() == n + 1 && sums[n as int]
            == r
}

/// `data` is the output frame for `taps` over the oldest frames of `line`.
/// When the whole line tested silent (`quiet`) it is a zero frame, made
/// without any product; otherwise each channel is the direct-form sum.
pub open spec fn is_output<S: Scalar, const N: usize>(
    taps: Seq<[S; N]>,
    line: Seq<Sample<S, N>>,
    quiet: bool,
    data: [S; N],
) -> bool {
    if quiet {
        is_zero_frame(data)
    } else {
        forall|c: int| 0 <= c < N ==> convolves(taps, line, c, taps.len(), #[trigger] data[c])
    }
}

/// The streaming filter.
pub struct FirFilter<S, const NUM_CHANNELS: usize> {
    zero_sample_count: usize,
    impulse: Vec<[S; NUM_CHANNELS]>,
    buffer: VecDeque<Sample<S, NUM_CHANNELS>>,
}

/// Whether every channel of `data` tests as silence.
fn frame_is_silent<S: Scalar, const N: usize>(data: &[S; N]) -> (silent: bool)
    ensures
        silent ==> is_silent(*data),
        !silent ==> is_audible(*data),
{
    let mut c: usize = 0;
    while c < N
        invariant
            c <= N,
            forall|k: int| 0 <= k < c ==> tests_zero(#[trigger] data[k], true),
        decreases N - c,
    {
        if !data[c].is_zero() {
            return false;
        }
        c += 1;
    }
    true
}

/// The length that the bank's impulses share, if they do.
fn shared_length<S>(impulses: &Vec<Vec<S>>) -> (r: Option<usize>)
    ensures
        r is Some <==> lengths_agree(impulses@),
        r matches Some(len) ==> len == common_len(impulses@, impulses@.len()),
{
    let mut len: usize = 0;
    let mut i: usize = 0;
    while i < impulses.len()
        invariant
            i <= impulses.len(),
            len == common_len(impulses@, i as nat),
            forall|a: int|
                0 <= a < i && (#[trigger] impulses@[a]).len() > 0 ==> impulses@[a].len() == len,
        decreases impulses.len() - i,
    {
        let here = impulses[i].len();
        if here > 0 {
            if len == 0 {
                len = here;
            } else if here != len {
                proof {
                    lemma_common_len_source(impulses@, i as nat);
                }
                return None;
            }
        }
        i += 1;
    }
    Some(len)
}

impl<S: Scalar, const NUM_CHANNELS: usize> FirFilter<S, NUM_CHANNELS> {
    /// The coefficient matrix: `taps()[t][c]` is tap `t` of channel `c`.
    pub closed spec fn taps(&self) -> Seq<[S; NUM_CHANNELS]> {
        self.impulse@
    }

    /// The frames held back, oldest first.
    pub closed spec fn delay_line(&self) -> Seq<Sample<S, NUM_CHANNELS>> {
        self.buffer@
    }

    /// How many frames in a row, counted back from the newest one pushed,
    /// tested silent. The count stops at the largest `usize`.
    pub closed spec fn silent_run(&self) -> nat {
        self.zero_sample_count as nat
    }

    /// The last `silent_run()` frames of the delay line tested silent (all
    /// of them, when the run is longer than the line).
    pub open spec fn wf(&self) -> bool {
        forall|i: int|
            0 <= i < self.delay_line().len() && self.delay_line().len() - i <= self.silent_run()
                ==> is_silent((#[trigger] self.delay_line()[i]).data)
    }

    /// Builds the filter from one impulse per channel. A bank with fewer
    /// impulses than channels leaves the remaining channels without one.
    ///
    /// The bank is turned down when it has more impulses than there are
    /// channels, and otherwise when two impulses that are not empty differ
    /// in length.
    pub fn new(impulses: Vec<Vec<S>>) -> (r: Result<Self, FirError>)
        ensures
            r matches Err(FirError::TooManyImpulses) <==> impulses@.len() > NUM_CHANNELS,
            r matches Err(FirError::LengthMismatch) <==> impulses@.len() <= NUM_CHANNELS
                && !lengths_agree(impulses@),
            r matches Ok(filter) ==> {
                &&& filter.wf()
                &&& is_tap_matrix(impulses@, filter.taps())
                &&& filter.delay_line() == Seq::<Sample<S, NUM_CHANNELS>>::empty()
                &&& filter.silent_run() == 0
            },
    {
        if impulses.len() > NUM_CHANNELS {
            return Err(FirError::TooManyImpulses);
        }
        let impulse_len = match shared_length(&impulses) {
            Some(len) => len,
            None => {
                return Err(FirError::LengthMismatch);
            },
        };
        let z = S::zero();
        let mut impulse: Vec<[S; NUM_CHANNELS]> = Vec::new();
        let mut t: usize = 0;
        while t < impulse_len
            invariant
                t <= impulse_len,
                impulse_len == common_len(impulses@, impulses@.len()),
                lengths_agree(impulses@),
                impulses@.len() <= NUM_CHANNELS,
                is_zero_of(z),
                impulse@.len() == t,
                forall|s: int, c: int|
                    0 <= s < t && 0 <= c < NUM_CHANNELS ==> if c < impulses@.len()
                        && impulses@[c].len() > 0 {
                        (#[trigger] impulse@[s][c]) == impulses@[c][s]
                    } else {
                        is_zero_of(#[trigger] impulse@[s][c])
                    },
            decreases impulse_len - t,
        {
            let mut row: [S; NUM_CHANNELS] = [z; NUM_CHANNELS];
            let mut c: usize = 0;
            while c < impulses.len()
                invariant
                    c <= impulses@.len(),
                    t < impulse_len,
                    impulse_len == common_len(impulses@, impulses@.len()),
                    lengths_agree(impulses@),
                    impulses@.len() <= NUM_CHANNELS,
                    is_zero_of(z),
                    forall|k: int|
                        0 <= k < NUM_CHANNELS ==> if k < c && impulses@[k].len() > 0 {
                            (#[trigger] row[k]) == impulses@[k][t as int]
                        } else {
                            is_zero_of(#[trigger] row[k])
                        },
                decreases impulses.len() - c,
            {
                if impulses[c].len() > 0 {
                    proof {
                        lemma_common_len(impulses@, impulses@.len(), c as int);
                    }
                    row[c] = impulses[c][t];
                }
                c += 1;
            }
            impulse.push(row);
            t += 1;
        }
        Ok(FirFilter { zero_sample_count: 0, impulse, buffer: VecDeque::new() })
    }

    /// Appends `sample` to the tail of the delay line and keeps count of the
    /// silent frames in a row.
    pub fn push_sample(&mut self, sample: Sample<S, NUM_CHANNELS>)
        requires
            old(self).wf(),
        ensures
            final(self).wf(),
            final(self).taps() == old(self).taps(),
            final(self).delay_line() == old(self).delay_line().push(sample),
            final(self).silent_run() == 0 || final(self).silent_run() == if old(self).silent_run()
                < usize::MAX {
                old(self).silent_run() + 1
            } else {
                old(self).silent_run()
            },
            final(self).silent_run() == 0 ==> is_audible(sample.data),
            final(self).silent_run() > 0 ==> is_silent(sample.data),
    {
        if frame_is_silent(&sample.data) {
            if self.zero_sample_count < usize::MAX {
                self.zero_sample_count += 1;
            }
        } else {
            self.zero_sample_count = 0;
        }
        self.buffer.push_back(sample);
        assert(self.delay_line() == old(self).delay_line().push(sample));
    }

    /// Produces one output frame once the delay line holds as many frames
    /// as the filter is long, and takes the oldest frame off the line. Until
    /// then, and on an empty line, it returns nothing and changes nothing.
    ///
    /// The output carries the timestamp of the frame that left. Its data is
    /// the direct-form sum over the oldest frames, or a zero frame made
    /// without arithmetic when the silent run covers the whole line.
    pub fn pop_sample(&mut self) -> (r: Option<Sample<S, NUM_CHANNELS>>)
        requires
            old(self).wf(),
        ensures
            final(self).wf(),
            final(self).taps() == old(self).taps(),
            final(self).silent_run() == old(self).silent_run(),
            r is Some <==> primed(old(self).taps().len(), old(self).delay_line().len()),
            final(self).delay_line() == after_pop(old(self).taps().len(), old(self).delay_line()),
            r matches Some(out) ==> {
                &&& out.timestamp == old(self).delay_line()[0].timestamp
                &&& is_output(
                    old(self).taps(),
                    old(self).delay_line(),
                    old(self).silent_run() >= old(self).delay_line().len(),
                    out.data,
                )
            },
    {
        let depth = self.buffer.len();
        let len = self.impulse.len();
        if depth < len || depth == 0 {
            return None;
        }
        let z = S::zero();
        let mut arr: [S; NUM_CHANNELS] = [z; NUM_CHANNELS];
        if self.zero_sample_count < depth {
            proof {
                assert forall|c: int| 0 <= c < NUM_CHANNELS implies convolves(
                    self.impulse@,
                    self.buffer@,
                    c,
                    0,
                    #[trigger] arr[c],
                ) by {
                    lemma_convolves_start(self.impulse@, self.buffer@, c, arr[c]);
                }
            }
            let mut t: usize = 0;
            while t < len
                invariant
                    t <= len,
                    len == self.impulse@.len(),
                    len <= self.buffer@.len(),
                    forall|c: int|
                        0 <= c < NUM_CHANNELS ==> convolves(
                            self.impulse@,
                            self.buffer@,
                            c,
                            t as nat,
                            #[trigger] arr[c],
                        ),
                decreases len - t,
            {
                let mut c: usize = 0;
                while c < NUM_CHANNELS
                    invariant
                        c <= NUM_CHANNELS,
                        t < len,
                        len == self.impulse@.len(),
                        len <= self.buffer@.len(),
                        forall|k: int|
                            0 <= k < NUM_CHANNELS ==> convolves(
                                self.impulse@,
                                self.buffer@,
                                k,
                                if k < c {
                                    (t + 1) as nat
                                } else {
                                    t as nat
                                },
                                #[trigger] arr[k],
                            ),
                    decreases NUM_CHANNELS - c,
                {
                    let h = self.impulse[t][c];
                    let x = self.buffer[t].data[c];
                    let acc = arr[c];
                    let p = h.times(x);
                    let sum = acc.plus(p);
                    proof {
                        assert(is_product(h, x, p) && is_sum(acc, p, sum));
                        lemma_convolves_step(
                            self.impulse@,
                            self.buffer@,
                            c as int,
                            t as nat,
                            acc,
                            sum,
                        );
                    }
                    arr[c] = sum;
                    c += 1;
                }
                t += 1;
            }
        }
        match self.buffer.pop_front() {
            Some(oldest) => Some(Sample { timestamp: oldest.timestamp, data: arr }),
            None => None,
        }
    }
}

/// A zero is the direct-form sum over no taps.
pub proof fn lemma_convolves_start<S: Scalar, const N: usize>(
    taps: Seq<[S; N]>,
    line: Seq<Sample<S, N>>,
    c: int,
    z: S,
)
    requires
        is_zero_of(z),
    ensures
        convolves(taps, line, c, 0, z),
{
    assert(is_running_sum(taps, line, c, seq![z]));
}

/// One more multiply-accumulate step extends a direct-form sum by one tap.
pub proof fn lemma_convolves_step<S: Scalar, const N: usize>(
    taps: Seq<[S; N]>,
    line: Seq<Sample<S, N>>,
    c: int,
    n: nat,
    acc: S,
    r: S,
)
    requires
        convolves(taps, line, c, n, acc),
        is_mac(acc, taps[n as int][c], line[n as int].data[c], r),
    ensures
        convolves(taps, line, c, (n + 1) as nat, r),
{
    let sums = choose|sums: Seq<S>|
        (#[trigger] is_running_sum(taps, line, c, sums)) && sums.len() == n + 1 && sums[n as int]
            == acc;
    assert(is_running_sum(taps, line, c, sums.push(r)));
}

/// In a bank whose impulses agree in length, every impulse that is not
/// empty has the common length.
pub proof fn lemma_common_len<S>(impulses: Seq<Vec<S>>, upto: nat, c: int)
    requires
        lengths_agree(impulses),
        upto <= impulses.len(),
        0 <= c < upto,
        impulses[c].len() > 0,
    ensures
        common_len(impulses, upto) == impulses[c].len(),
    decreases upto,
{
    if upto - 1 > c {
        lemma_common_len(impulses, (upto - 1) as nat, c);
    } else {
        lemma_common_len_source(impulses, (upto - 1) as nat);
    }
}

/// A common length above zero is the length of one of the impulses.
pub proof fn lemma_common_len_source<S>(impulses: Seq<Vec<S>>, upto: nat)
    requires
        upto <= impulses.len(),
    ensures
        common_len(impulses, upto) > 0 ==> exists|a: int|
            0 <= a < upto && (#[trigger] impulses[a]).len() == common_len(impulses, upto),
    decreases upto,
{
    if upto > 0 {
        let before = common_len(impulses, (upto - 1) as nat);
        if before > 0 {
            lemma_common_len_source(impulses, (upto - 1) as nat);
        }
    }
}

} // verus!
