//! A rate-matching sender.
//!
//! The throttle sits in front of a counting channel and keeps the depth of
//! that channel near a target. For every sample it reads the depth, runs one
//! step of a PID controller on the distance from the target, and then either
//! forwards the sample unchanged or drops it. A positive controller output
//! `u` asks for drops: the sample is dropped when the running sample number
//! is a multiple of `ONE_MILLION / (k + 1)`, where `k` is `u * 50` cut to a
//! whole number, so the drops come closer together as `u` grows.
//!
//! The controller works on real numbers that the user supplies with their
//! operations, as the filter does with its samples. Contracts speak of them
//! through relations: a value "is a sum of a and b" when the number type's
//! own `plus` may return it for a and b.

use crate::counting_mpsc::channel as counting_channel;
use crate::counting_mpsc::is_count;
use crate::counting_mpsc::is_one_queue;
use crate::counting_mpsc::is_raised;
use crate::counting_mpsc::starts_at_zero;
use crate::counting_mpsc::Receiver;
use crate::counting_mpsc::SendError;
use crate::counting_mpsc::Sender;
use crate::marked::picked;
use std::sync::atomic::AtomicUsize;
use std::sync::mpsc;
use std::sync::Arc;
use vstd::prelude::*;

verus! {

/// The longest drop period, in samples.
pub const ONE_MILLION: u64 = 1000000;

/// The depth that the throttle steers the channel towards, in frames.
pub const BUFFER_LEN_TARGET: usize = 600;

/// The controller's time step is one sample at this rate.
pub const CONTROL_RATE: i64 = 48000;

/// The real numbers of the controller.
pub trait Real: Copy {
    /// The number `v`.
    fn from_int(v: i64) -> Self;

    /// `self + other`.
    fn plus(self, other: Self) -> Self;

    /// `self - other`.
    fn minus(self, other: Self) -> Self;

    /// `self * other`.
    fn times(self, other: Self) -> Self;

    /// `self / other`.
    fn over(self, other: Self) -> Self;

    /// Whether `self > 0`.
    fn is_positive(self) -> bool;

    /// `self` cut to a whole number, and to the range of `u64`.
    fn truncate(self) -> u64;
}

/// `r` is a value that `R::from_int(v)` returns.
pub open spec fn real_of<R: Real>(v: i64, r: R) -> bool {
    call_ensures(R::from_int, (v,), r)
}

/// `r` is a value that `a.plus(b)` returns.
pub open spec fn real_sum<R: Real>(a: R, b: R, r: R) -> bool {
    call_ensures(R::plus, (a, b), r)
}

/// `r` is a value that `a.minus(b)` returns.
pub open spec fn real_difference<R: Real>(a: R, b: R, r: R) -> bool {
    call_ensures(R::minus, (a, b), r)
}

/// `r` is a value that `a.times(b)` returns.
pub open spec fn real_product<R: Real>(a: R, b: R, r: R) -> bool {
    call_ensures(R::times, (a, b), r)
}

/// `r` is a value that `a.over(b)` returns.
pub open spec fn real_quotient<R: Real>(a: R, b: R, r: R) -> bool {
    call_ensures(R::over, (a, b), r)
}

/// `v.is_positive()` may answer `verdict`.
pub open spec fn tests_positive<R: Real>(v: R, verdict: bool) -> bool {
    call_ensures(R::is_positive, (v,), verdict)
}

/// `k` is a value that `v.truncate()` returns.
pub open spec fn truncates_to<R: Real>(v: R, k: u64) -> bool {
    call_ensures(R::truncate, (v,), k)
}

/// `r` is the quotient of the numbers `num` and `den`.
pub open spec fn real_ratio<R: Real>(num: i64, den: i64, r: R) -> bool {
    exists|a: R, b: R| real_of(num, a) && real_of(den, b) && #[trigger] real_quotient(a, b, r)
}

/// The controller's constants.
pub struct Gains<R> {
    /// Weight of the error: 1/1000.
    pub kp: R,
    /// Weight of the integral: 1/10000.
    pub ki: R,
    /// Weight of the derivative: 1/10000.
    pub kd: R,
    /// The time step: 1/CONTROL_RATE.
    pub td: R,
    /// What the output is scaled by before it is cut to a whole number: 50.
    pub scale: R,
}

impl<R: Real> Gains<R> {
    /// Each constant is the number its documentation names.
    pub open spec fn wf(&self) -> bool {
        &&& real_ratio(1, 1000, self.kp)
        &&& real_ratio(1, 10000, self.ki)
        &&& real_ratio(1, 10000, self.kd)
        &&& real_ratio(1, CONTROL_RATE, self.td)
        &&& real_of(50, self.scale)
    }

    /// The constants, each computed as its documentation names it.
    pub fn new() -> (gains: Self)
        ensures
            gains.wf(),
    {
        let one = R::from_int(1);
        let thousand = R::from_int(1000);
        let ten_thousand = R::from_int(10000);
        let rate = R::from_int(CONTROL_RATE);
        let kp = one.over(thousand);
        let ki = one.over(ten_thousand);
        let kd = one.over(ten_thousand);
        let td = one.over(rate);
        proof {
            assert(real_quotient(one, thousand, kp));
            assert(real_quotient(one, ten_thousand, ki));
            assert(real_quotient(one, ten_thousand, kd));
            assert(real_quotient(one, rate, td));
        }
        Gains { kp, ki, kd, td, scale: R::from_int(50) }
    }
}

/// The values that one controller step passes through.
pub struct ControlTrace<R> {
    /// The error as a real number.
    pub error: R,
    /// The error times the time step.
    pub increment: R,
    /// The error less the previous error.
    pub derivative: R,
    /// `kp` times the error.
    pub p_term: R,
    /// `ki` times the new integral.
    pub i_term: R,
    /// `kd` times the derivative.
    pub d_term: R,
    /// The sum of the first two terms.
    pub partial: R,
    /// The controller output `u`.
    pub output: R,
    /// `u` times the scale.
    pub scaled: R,
}

/// What the controller remembers between samples.
pub struct PidState<R> {
    /// The integral of the error over time.
    pub integral: R,
    /// The error of the sample before.
    pub prev_error: R,
}

/// The distance of `depth` from the target, positive above it. A distance
/// beyond the range of `i64` is cut to its largest value.
pub open spec fn depth_error(depth: usize) -> i64 {
    if depth - BUFFER_LEN_TARGET <= i64::MAX {
        (depth - BUFFER_LEN_TARGET) as i64
    } else {
        i64::MAX
    }
}

/// `trace` is one PID step for `error` from `before` to `after`:
/// the integral grows by error times time step, the derivative is the
/// error less the previous error, the previous error becomes the error, and
/// the output is `kp * error + ki * integral + kd * derivative`, summed from
/// the left.
pub open spec fn is_pid_step<R: Real>(
    gains: Gains<R>,
    before: PidState<R>,
    error: i64,
    trace: ControlTrace<R>,
    after: PidState<R>,
) -> bool {
    &&& real_of(error, trace.error)
    &&& real_product(trace.error, gains.td, trace.increment)
    &&& real_sum(before.integral, trace.increment, after.integral)
    &&& real_difference(trace.error, before.prev_error, trace.derivative)
    &&& after.prev_error == trace.error
    &&& real_product(gains.kp, trace.error, trace.p_term)
    &&& real_product(gains.ki, after.integral, trace.i_term)
    &&& real_product(gains.kd, trace.derivative, trace.d_term)
    &&& real_sum(trace.p_term, trace.i_term, trace.partial)
    &&& real_sum(trace.partial, trace.d_term, trace.output)
}

/// `drive` is what the output of `trace` asks for: nothing when the output
/// did not test positive, else the output times the scale, cut to a whole
/// number.
pub open spec fn is_drive<R: Real>(
    gains: Gains<R>,
    trace: ControlTrace<R>,
    drive: Option<u64>,
) -> bool {
    match drive {
        None => tests_positive(trace.output, false),
        Some(k) => {
            &&& tests_positive(trace.output, true)
            &&& real_product(trace.output, gains.scale, trace.scaled)
            &&& truncates_to(trace.scaled, k)
        },
    }
}

/// One controller step at channel depth `depth` takes `before` to `after`
/// and asks for `drive`.
pub open spec fn is_control_step<R: Real>(
    gains: Gains<R>,
    before: PidState<R>,
    depth: usize,
    after: PidState<R>,
    drive: Option<u64>,
) -> bool {
    exists|trace: ControlTrace<R>|
        (#[trigger] is_pid_step(gains, before, depth_error(depth), trace, after)) && is_drive(
            gains,
            trace,
            drive,
        )
}

/// What becomes of a sample.
#[derive(Clone, Copy, Debug, PartialEq, Eq)]
pub enum Verdict {
    /// It goes downstream.
    Forward,
    /// It is left out.
    Drop,
    /// The controller asks for more than one drop per sample: the period
    /// `ONE_MILLION / (k + 1)` is zero and no sample number is a multiple
    /// of it.
    Overdriven,
}

/// The number of samples from one drop to the next at drive `k`.
pub open spec fn drop_period(k: u64) -> int {
    ONE_MILLION as int / (k + 1)
}

/// What becomes of sample number `iter_count` at drive `drive`.
pub open spec fn verdict_of(iter_count: u64, drive: Option<u64>) -> Verdict {
    match drive {
        None => Verdict::Forward,
        Some(k) => if drop_period(k) == 0 {
            Verdict::Overdriven
        } else if iter_count as int % drop_period(k) == 0 {
            Verdict::Drop
        } else {
            Verdict::Forward
        },
    }
}

/// The sample number after `iter_count`; after the largest comes 0.
pub open spec fn next_count(iter_count: u64) -> u64 {
    if iter_count == u64::MAX {
        0
    } else {
        (iter_count + 1) as u64
    }
}

/// Why the throttle did not take a sample. Both hand the sample back.
#[derive(Debug)]
pub enum ThrottleError<T> {
    /// The receiver of the channel is gone.
    Disconnected(T),
    /// The controller's output is beyond what the drop rule covers.
    Overdriven(T),
}

/// What a throttle with sample number `count` and downstream log `forwarded`
/// makes of `item` at drive `drive`. A dropped sample is a success that
/// leaves the log alone. A forwarded one is appended to the log, or comes
/// back when the channel is closed. The sample number moves on in both
/// cases. An overdriven throttle hands the sample back and changes nothing.
pub open spec fn throttled<T>(
    count: u64,
    forwarded: Seq<T>,
    item: T,
    drive: Option<u64>,
    count_after: u64,
    forwarded_after: Seq<T>,
    r: Result<(), ThrottleError<T>>,
) -> bool {
    match verdict_of(count, drive) {
        Verdict::Overdriven => {
            &&& r == Err::<(), ThrottleError<T>>(ThrottleError::Overdriven(item))
            &&& count_after == count
            &&& forwarded_after == forwarded
        },
        Verdict::Drop => {
            &&& r == Ok::<(), ThrottleError<T>>(())
            &&& count_after == next_count(count)
            &&& forwarded_after == forwarded
        },
        Verdict::Forward => {
            &&& count_after == next_count(count)
            &&& match r {
                Ok(()) => forwarded_after == forwarded.push(item),
                Err(e) => e == ThrottleError::Disconnected(item) && forwarded_after == forwarded,
            }
        },
    }
}

/// The distance of `depth` from the target.
pub fn error_at(depth: usize) -> (error: i64)
    ensures
        error == depth_error(depth),
{
    if depth <= BUFFER_LEN_TARGET {
        let below: usize = BUFFER_LEN_TARGET - depth;
        0 - (below as i64)
    } else {
        let above: usize = depth - BUFFER_LEN_TARGET;
        if above as u64 > 0x7fff_ffff_ffff_ffff {
            i64::MAX
        } else {
            above as i64
        }
    }
}

/// What becomes of sample number `iter_count` at drive `drive`.
pub fn verdict(iter_count: u64, drive: Option<u64>) -> (v: Verdict)
    ensures
        v == verdict_of(iter_count, drive),
{
    match drive {
        None => Verdict::Forward,
        Some(k) => {
            if k >= ONE_MILLION {
                proof {
                    lemma_period_vanishes(k);
                }
                Verdict::Overdriven
            } else {
                let period: u64 = ONE_MILLION / (k + 1);
                proof {
                    lemma_period_positive(k);
                }
                if iter_count % period == 0 {
                    Verdict::Drop
                } else {
                    Verdict::Forward
                }
            }
        },
    }
}

/// The sender that forwards or drops.
#[verifier::reject_recursive_types(T)]
pub struct ThrottleSender<T, R> {
    iter_count: u64,
    output_mpsc_tx: Sender<T>,
    gains: Gains<R>,
    pid: PidState<R>,
    history: Ghost<Seq<(T, bool)>>,
}

/// A throttle in front of a new counting channel, and the channel's
/// receiving end: what the throttle forwards comes out of that receiver, and
/// the depth that the throttle reads is the count that the receiver moves.
/// The controller starts with integral and previous error at zero.
pub fn channel<T, R: Real>() -> (ends: (ThrottleSender<T, R>, Receiver<T>))
    ensures
        ends.0.downstream_counter() == ends.1.counter(),
        starts_at_zero(ends.1.counter()),
        is_one_queue(ends.0.downstream_queue(), ends.1.queue()),
        ends.0.gains().wf(),
        ends.0.iterations() == 0,
        ends.0.wf(),
        ends.0.forwarded() == Seq::<T>::empty(),
        ends.0.history() == Seq::<(T, bool)>::empty(),
        real_of(0, ends.0.pid().integral),
        real_of(0, ends.0.pid().prev_error),
        ends.1.delivered() == Seq::<T>::empty(),
{
    let (output_mpsc_tx, output_mpsc_rx) = counting_channel();
    let gains = Gains::new();
    let pid = PidState { integral: R::from_int(0), prev_error: R::from_int(0) };
    (
        ThrottleSender { iter_count: 0, output_mpsc_tx, gains, pid, history: Ghost(Seq::empty()) },
        output_mpsc_rx,
    )
}

impl<T, R: Real> ThrottleSender<T, R> {
    /// The number of the next sample.
    pub closed spec fn iterations(&self) -> u64 {
        self.iter_count
    }

    /// The samples that went downstream, oldest first.
    pub closed spec fn forwarded(&self) -> Seq<T> {
        self.output_mpsc_tx.accepted()
    }

    /// The counter of the channel downstream, whose count is the depth that
    /// the throttle steers.
    pub closed spec fn downstream_counter(&self) -> Arc<AtomicUsize> {
        self.output_mpsc_tx.counter()
    }

    /// The producing end of the queue downstream.
    pub closed spec fn downstream_queue(&self) -> mpsc::Sender<T> {
        self.output_mpsc_tx.queue()
    }

    /// Every sample that was offered so far, oldest first, each with
    /// whether it went downstream.
    pub closed spec fn history(&self) -> Seq<(T, bool)> {
        self.history@
    }

    /// What went downstream is what the history says, in the same order:
    /// nothing was added, changed or moved.
    pub open spec fn wf(&self) -> bool {
        self.forwarded() == picked(self.history())
    }

    /// The controller's constants.
    pub closed spec fn gains(&self) -> Gains<R> {
        self.gains
    }

    /// The controller's memory.
    pub closed spec fn pid(&self) -> PidState<R> {
        self.pid
    }

    /// One controller step at depth `depth`.
    fn control(&mut self, depth: usize) -> (drive: Option<u64>)
        ensures
            is_control_step(old(self).gains, old(self).pid, depth, final(self).pid, drive),
            final(self).gains == old(self).gains,
            final(self).iter_count == old(self).iter_count,
            final(self).output_mpsc_tx == old(self).output_mpsc_tx,
            final(self).history == old(self).history,
    {
        let error = R::from_int(error_at(depth));
        let increment = error.times(self.gains.td);
        let integral = self.pid.integral.plus(increment);
        let derivative = error.minus(self.pid.prev_error);
        let p_term = self.gains.kp.times(error);
        let i_term = self.gains.ki.times(integral);
        let d_term = self.gains.kd.times(derivative);
        let partial = p_term.plus(i_term);
        let output = partial.plus(d_term);
        self.pid = PidState { integral, prev_error: error };
        if output.is_positive() {
            let scaled = output.times(self.gains.scale);
            let k = scaled.truncate();
            proof {
                let trace = ControlTrace {
                    error,
                    increment,
                    derivative,
                    p_term,
                    i_term,
                    d_term,
                    partial,
                    output,
                    scaled,
                };
                assert(is_pid_step(
                    old(self).gains,
                    old(self).pid,
                    depth_error(depth),
                    trace,
                    self.pid,
                ));
            }
            Some(k)
        } else {
            proof {
                let trace = ControlTrace {
                    error,
                    increment,
                    derivative,
                    p_term,
                    i_term,
                    d_term,
                    partial,
                    output,
                    scaled: output,
                };
                assert(is_pid_step(
                    old(self).gains,
                    old(self).pid,
                    depth_error(depth),
                    trace,
                    self.pid,
                ));
            }
            None
        }
    }

    /// Forwards or drops `item` as the sample number and `drive` decide.
    /// The controller is not run.
    pub fn send_driven(&mut self, item: T, drive: Option<u64>) -> (r: Result<
        (),
        ThrottleError<T>,
    >)
        requires
            old(self).wf(),
        ensures
            final(self).wf(),
            final(self).downstream_counter() == old(self).downstream_counter(),
            final(self).downstream_queue() == old(self).downstream_queue(),
            final(self).forwarded() != old(self).forwarded() ==> is_raised(
                old(self).downstream_counter(),
            ),
            throttled(
                old(self).iterations(),
                old(self).forwarded(),
                item,
                drive,
                final(self).iterations(),
                final(self).forwarded(),
                r,
            ),
            final(self).history() == old(self).history().push(
                (item, final(self).forwarded() != old(self).forwarded()),
            ),
            final(self).gains() == old(self).gains(),
            final(self).pid() == old(self).pid(),
    {
        let ghost before = self.history@;
        let ghost sent = self.output_mpsc_tx.accepted();
        let result = match verdict(self.iter_count, drive) {
            Verdict::Overdriven => {
                self.history = Ghost(before.push((item, false)));
                assert(self.history@.drop_last() == before);
                return Err(ThrottleError::Overdriven(item));
            },
            Verdict::Drop => Ok(()),
            Verdict::Forward => match self.output_mpsc_tx.send(item) {
                Ok(()) => Ok(()),
                Err(SendError(back)) => Err(ThrottleError::Disconnected(back)),
            },
        };
        self.iter_count = self.iter_count.wrapping_add(1);
        self.history = Ghost(before.push((item, self.output_mpsc_tx.accepted() != sent)));
        assert(self.history@.drop_last() == before);
        result
    }

    /// Runs the controller for a channel depth of `depth`, then forwards or
    /// drops `item` as it asks.
    pub fn send_at(&mut self, item: T, depth: usize) -> (r: Result<(), ThrottleError<T>>)
        requires
            old(self).wf(),
        ensures
            final(self).wf(),
            final(self).downstream_counter() == old(self).downstream_counter(),
            final(self).downstream_queue() == old(self).downstream_queue(),
            final(self).forwarded() != old(self).forwarded() ==> is_raised(
                old(self).downstream_counter(),
            ),
            final(self).gains() == old(self).gains(),
            final(self).history() == old(self).history().push(
                (item, final(self).forwarded() != old(self).forwarded()),
            ),
            exists|drive: Option<u64>|
                (#[trigger] is_control_step(
                    old(self).gains(),
                    old(self).pid(),
                    depth,
                    final(self).pid(),
                    drive,
                )) && throttled(
                    old(self).iterations(),
                    old(self).forwarded(),
                    item,
                    drive,
                    final(self).iterations(),
                    final(self).forwarded(),
                    r,
                ),
    {
        let drive = self.control(depth);
        let r = self.send_driven(item, drive);
        proof {
            assert(is_control_step(
                old(self).gains(),
                old(self).pid(),
                depth,
                self.pid(),
                drive,
            ));
        }
        r
    }

    /// Reads the depth of the channel downstream off its counter, runs the
    /// controller on it, then forwards or drops `item`. The depth is whatever
    /// the counter shows at that moment.
    pub fn send(&mut self, item: T) -> (r: Result<(), ThrottleError<T>>)
        requires
            old(self).wf(),
        ensures
            final(self).wf(),
            final(self).downstream_counter() == old(self).downstream_counter(),
            final(self).downstream_queue() == old(self).downstream_queue(),
            final(self).forwarded() != old(self).forwarded() ==> is_raised(
                old(self).downstream_counter(),
            ),
            final(self).gains() == old(self).gains(),
            final(self).history() == old(self).history().push(
                (item, final(self).forwarded() != old(self).forwarded()),
            ),
            exists|depth: usize, drive: Option<u64>|
                is_count(old(self).downstream_counter(), depth) && (#[trigger] is_control_step(
                    old(self).gains(),
                    old(self).pid(),
                    depth,
                    final(self).pid(),
                    drive,
                )) && throttled(
                    old(self).iterations(),
                    old(self).forwarded(),
                    item,
                    drive,
                    final(self).iterations(),
                    final(self).forwarded(),
                    r,
                ),
    {
        let output_len = self.output_mpsc_tx.get_count();
        self.send_at(item, output_len)
    }
}

/// At a drive of a million or more the drop period is zero.
pub proof fn lemma_period_vanishes(k: u64)
    requires
        k >= ONE_MILLION,
    ensures
        drop_period(k) == 0,
{
    let d = k + 1;
    assert(1000000int / d == 0) by (nonlinear_arith)
        requires
            d > 1000000,
    ;
}

/// Below a drive of a million the drop period is at least one sample, and
/// it fits the machine's division.
pub proof fn lemma_period_positive(k: u64)
    requires
        k < ONE_MILLION,
    ensures
        drop_period(k) >= 1,
        drop_period(k) <= ONE_MILLION,
{
    let d = k + 1;
    assert(1 <= 1000000int / d <= 1000000) by (nonlinear_arith)
        requires
            1 <= d <= 1000000,
    ;
}

} // verus!
