//! What holds of the throttle over many samples.

use crate::marked::origins;
use crate::marked::picked;
use crate::throttle_module::depth_error;
use crate::throttle_module::drop_period;
use crate::throttle_module::is_control_step;
use crate::throttle_module::is_drive;
use crate::throttle_module::is_pid_step;
use crate::throttle_module::lemma_period_positive;
use crate::throttle_module::real_difference;
use crate::throttle_module::real_of;
use crate::throttle_module::real_product;
use crate::throttle_module::real_sum;
use crate::throttle_module::tests_positive;
use crate::throttle_module::throttled;
use crate::throttle_module::verdict_of;
use crate::throttle_module::ControlTrace;
use crate::throttle_module::Gains;
use crate::throttle_module::PidState;
use crate::throttle_module::Real;
use crate::throttle_module::ThrottleError;
use crate::throttle_module::Verdict;
use crate::throttle_module::BUFFER_LEN_TARGET;
use crate::throttle_module::ONE_MILLION;
use vstd::prelude::*;

verus! {

/// Integrity. Every sample that went downstream is one of the samples that
/// were offered, unchanged, and the samples went downstream in the order in
/// which they were offered: sample `i` downstream is the offered sample at
/// place `origins(history)[i]`, and these places grow with `i`.
pub proof fn lemma_forwarded_are_offered<T>(history: Seq<(T, bool)>)
    ensures
        origins(history).len() == picked(history).len(),
        forall|i: int|
            0 <= i < origins(history).len() ==> {
                &&& 0 <= (#[trigger] origins(history)[i]) < history.len()
                &&& history[origins(history)[i]] == (picked(history)[i], true)
            },
        forall|i: int, j: int|
            0 <= i < j < origins(history).len() ==> (#[trigger] origins(history)[i]) < (
            #[trigger] origins(history)[j]),
    decreases history.len(),
{
    if history.len() > 0 {
        let shorter = history.drop_last();
        lemma_forwarded_are_offered(shorter);
        // The places found in the shorter history stay where they are; a
        // last entry that was taken adds its own place at the end.
        assert forall|i: int| 0 <= i < origins(history).len() implies {
            &&& 0 <= (#[trigger] origins(history)[i]) < history.len()
            &&& history[origins(history)[i]] == (picked(history)[i], true)
        } by {
            if i < origins(shorter).len() {
                assert(origins(history)[i] == origins(shorter)[i]);
            }
        }
    }
}

/// While the controller asks for nothing, no sample is dropped: each one is
/// handed to the channel.
pub proof fn lemma_idle_controller_forwards(iter_count: u64)
    ensures
        verdict_of(iter_count, None) == Verdict::Forward,
{
}

/// Drops recur. At a drive `k` below a million, every run of
/// `drop_period(k)` sample numbers in a row holds one that is dropped.
pub proof fn lemma_drops_recur(k: u64, start: u64)
    requires
        k < ONE_MILLION,
        start + drop_period(k) <= u64::MAX + 1,
    ensures
        exists|i: u64|
            start <= i < start + drop_period(k) && #[trigger] verdict_of(i, Some(k))
                == Verdict::Drop,
{
    lemma_period_positive(k);
    let period = drop_period(k);
    let rest = start as int % period;
    let i: u64 = if rest == 0 {
        start
    } else {
        (start + period - rest) as u64
    };
    assert(i as int % period == 0) by {
        if rest != 0 {
            vstd::arithmetic::div_mod::lemma_fundamental_div_mod(start as int, period);
            let q = start as int / period;
            assert(start + period - rest == period * (q + 1)) by (nonlinear_arith)
                requires
                    start == period * q + rest,
            ;
            vstd::arithmetic::div_mod::lemma_mod_multiples_basic(q + 1, period);
        }
    }
    assert(verdict_of(i, Some(k)) == Verdict::Drop);
}

/// `v` never tests positive.
pub open spec fn never_positive<R: Real>(v: R) -> bool {
    !tests_positive(v, true)
}

/// The sign laws of an ordered number type, as far as the controller leans
/// on them: a whole number that is not above zero is not positive as a real
/// number; the difference of two whole numbers is not positive when the
/// first is not the greater; a sum of two numbers that are not positive is
/// not positive; and neither is the product of such a number with any of
/// the gains or with the time step.
pub open spec fn sign_laws<R: Real>(gains: Gains<R>) -> bool {
    &&& forall|v: i64, r: R| v <= 0 && #[trigger] real_of(v, r) ==> never_positive(r)
    &&& forall|v: i64, w: i64, a: R, b: R, d: R|
        #![trigger real_of(v, a), real_of(w, b), real_difference(a, b, d)]
        v <= w && real_of(v, a) && real_of(w, b) && real_difference(a, b, d) ==> never_positive(
            d,
        )
    &&& forall|a: R, b: R, r: R|
        never_positive(a) && never_positive(b) && #[trigger] real_sum(a, b, r) ==> never_positive(
            r,
        )
    &&& forall|y: R, p: R|
        never_positive(y) && #[trigger] real_product(gains.kp, y, p) ==> never_positive(p)
    &&& forall|y: R, p: R|
        never_positive(y) && #[trigger] real_product(gains.ki, y, p) ==> never_positive(p)
    &&& forall|y: R, p: R|
        never_positive(y) && #[trigger] real_product(gains.kd, y, p) ==> never_positive(p)
    &&& forall|y: R, p: R|
        never_positive(y) && #[trigger] real_product(y, gains.td, p) ==> never_positive(p)
}

/// The controller is calm after an error of `last_error`: that error was
/// not above zero, it is what the controller remembers, and the integral is
/// not positive.
pub open spec fn is_calm<R: Real>(state: PidState<R>, last_error: i64) -> bool {
    &&& last_error <= 0
    &&& real_of(last_error, state.prev_error)
    &&& never_positive(state.integral)
}

/// A controller that starts with integral and previous error at zero is
/// calm.
pub proof fn lemma_fresh_controller_is_calm<R: Real>(gains: Gains<R>, state: PidState<R>)
    requires
        sign_laws(gains),
        real_of(0, state.integral),
        real_of(0, state.prev_error),
    ensures
        is_calm(state, 0),
{
}

/// Zero-drop regime, the controller's part. Under the sign laws, a calm
/// controller that sees a depth at or below the target, and not above the
/// depth it saw before, asks for nothing and stays calm.
pub proof fn lemma_calm_controller_asks_for_nothing<R: Real>(
    gains: Gains<R>,
    before: PidState<R>,
    last_error: i64,
    depth: usize,
    after: PidState<R>,
    drive: Option<u64>,
)
    requires
        sign_laws(gains),
        is_calm(before, last_error),
        depth <= BUFFER_LEN_TARGET,
        depth_error(depth) <= last_error,
        is_control_step(gains, before, depth, after, drive),
    ensures
        drive is None,
        is_calm(after, depth_error(depth)),
{
    // Every term of the step's output is a sum or a product of numbers that
    // are not positive, so the output is not, and a drive needs one that is.
    let error = depth_error(depth);
    let trace = choose|trace: ControlTrace<R>|
        (#[trigger] is_pid_step(gains, before, error, trace, after)) && is_drive(
            gains,
            trace,
            drive,
        );
}

/// Zero-drop regime. Under the sign laws, a throttle with a calm
/// controller, at a depth at or below the target and not above the depth
/// before, drops nothing: the sample goes downstream, or comes back because
/// the channel is closed. The controller stays calm, so this holds of every
/// sample of a run in which the depth starts at or below the target and
/// never rises.
pub proof fn lemma_zero_drop_regime<T, R: Real>(
    gains: Gains<R>,
    before: PidState<R>,
    last_error: i64,
    depth: usize,
    after: PidState<R>,
    drive: Option<u64>,
    count: u64,
    forwarded: Seq<T>,
    item: T,
    count_after: u64,
    forwarded_after: Seq<T>,
    r: Result<(), ThrottleError<T>>,
)
    requires
        sign_laws(gains),
        is_calm(before, last_error),
        depth <= BUFFER_LEN_TARGET,
        depth_error(depth) <= last_error,
        is_control_step(gains, before, depth, after, drive),
        throttled(count, forwarded, item, drive, count_after, forwarded_after, r),
    ensures
        is_calm(after, depth_error(depth)),
        r is Ok ==> forwarded_after == forwarded.push(item),
        r matches Err(e) ==> e == ThrottleError::Disconnected(item) && forwarded_after
            == forwarded,
{
    lemma_calm_controller_asks_for_nothing(gains, before, last_error, depth, after, drive);
}

} // verus!
