//! What holds of the filter over a whole stream of frames.
//!
//! A stream is fed in rounds: one push, then one pop. The laws here follow
//! the delay line through such rounds and say when output comes, which
//! frames it is made of and whose timestamp it carries. Two more say when
//! an output channel is a zero whatever the arithmetic did on the way.

use crate::fir_exact::lemma_crop_of_value;
use crate::fir_exact::lemma_wrapping_product;
use crate::fir_exact::lemma_wrapping_sum;
use crate::fir_module::after_pop;
use crate::fir_module::convolves;
use crate::fir_module::is_output;
use crate::fir_module::is_running_sum;
use crate::fir_module::primed;
use crate::sample::is_mac;
use crate::sample::is_product;
use crate::sample::is_silent;
use crate::sample::is_sum;
use crate::sample::is_zero_frame;
use crate::sample::is_zero_of;
use crate::sample::tests_zero;
use crate::sample::Sample;
use crate::sample::Scalar;
use vstd::prelude::*;

verus! {

/// The delay line of a filter of length `len` that started empty and went
/// through `rounds` rounds, the round `k` pushing `inputs[k]` and then
/// popping.
pub open spec fn streamed<T>(len: nat, inputs: Seq<T>, rounds: nat) -> Seq<T>
    decreases rounds,
{
    if rounds == 0 {
        Seq::empty()
    } else {
        after_pop(len, streamed(len, inputs, (rounds - 1) as nat).push(inputs[rounds - 1]))
    }
}

/// The number of frames that stay in the line between rounds once the
/// filter runs: one less than its length.
pub open spec fn held_back(len: nat) -> nat {
    if len == 0 {
        0
    } else {
        (len - 1) as nat
    }
}

/// After `rounds` rounds the delay line holds the newest inputs, as many as
/// the filter holds back, or all of them while there are fewer.
pub proof fn lemma_streamed_holds_newest<T>(len: nat, inputs: Seq<T>, rounds: nat)
    requires
        rounds <= inputs.len(),
    ensures
        streamed(len, inputs, rounds) == if rounds <= held_back(len) {
            inputs.subrange(0, rounds as int)
        } else {
            inputs.subrange(rounds - held_back(len), rounds as int)
        },
    decreases rounds,
{
    if rounds > 0 {
        lemma_streamed_holds_newest(len, inputs, (rounds - 1) as nat);
    }
}

/// Priming. The pop of round `k`, the one after push number `k + 1`,
/// yields output exactly when `k + 1` frames are at least the filter's
/// length. So the first `len - 1` rounds yield nothing and every later
/// round yields one frame.
pub proof fn lemma_priming<T>(len: nat, inputs: Seq<T>, k: nat)
    requires
        k < inputs.len(),
    ensures
        primed(len, streamed(len, inputs, k).push(inputs[k as int]).len()) <==> k + 1 >= len,
{
    lemma_streamed_holds_newest(len, inputs, k);
}

/// The window of a round. When the pop of round `k` yields output, the
/// delay line it works on is the run of inputs that ends with `inputs[k]`
/// and is as long as the filter (one frame for a filter of length 0).
pub proof fn lemma_stream_window<T>(len: nat, inputs: Seq<T>, k: nat)
    requires
        k < inputs.len(),
        k + 1 >= len,
    ensures
        streamed(len, inputs, k).push(inputs[k as int]) == inputs.subrange(
            k - held_back(len),
            k + 1 as int,
        ),
{
    lemma_streamed_holds_newest(len, inputs, k);
}

/// Timestamp preservation. Output number `j` of a stream, counted from 0,
/// comes in round `j + held_back(len)`, and the oldest frame of the line at
/// that pop, whose timestamp the output carries, is input number `j`.
pub proof fn lemma_output_is_stamped_by_its_input<const N: usize, S>(
    len: nat,
    inputs: Seq<Sample<S, N>>,
    j: nat,
)
    requires
        j + held_back(len) < inputs.len(),
    ensures
        ({
            let k = j + held_back(len);
            let line = streamed(len, inputs, k).push(inputs[k as int]);
            primed(len, line.len()) && line[0] == inputs[j as int]
        }),
{
    let k = j + held_back(len);
    lemma_priming(len, inputs, k);
    lemma_stream_window(len, inputs, k);
}

/// A number type in which zero times anything is zero and zero plus zero
/// is zero.
pub open spec fn zero_absorbs<S: Scalar>() -> bool {
    &&& forall|z: S, x: S, p: S| is_zero_of(z) && #[trigger] is_product(z, x, p) ==> is_zero_of(p)
    &&& forall|a: S, b: S, r: S|
        is_zero_of(a) && is_zero_of(b) && #[trigger] is_sum(a, b, r) ==> is_zero_of(r)
}

/// A number type in which anything times silence is silence and zero plus
/// silence is zero.
pub open spec fn silence_absorbs<S: Scalar>() -> bool {
    &&& forall|h: S, x: S, p: S|
        tests_zero(x, true) && #[trigger] is_product(h, x, p) ==> tests_zero(p, true)
    &&& forall|a: S, b: S, r: S|
        is_zero_of(a) && tests_zero(b, true) && #[trigger] is_sum(a, b, r) ==> is_zero_of(r)
}

/// Wrapping whole numbers are exact in both senses.
pub proof fn lemma_i64_absorbs()
    ensures
        zero_absorbs::<i64>(),
        silence_absorbs::<i64>(),
{
}

/// Every running sum over taps that are zeros is a zero.
proof fn lemma_sums_of_zero_taps<S: Scalar, const N: usize>(
    taps: Seq<[S; N]>,
    line: Seq<Sample<S, N>>,
    c: int,
    sums: Seq<S>,
    upto: int,
)
    requires
        zero_absorbs::<S>(),
        is_running_sum(taps, line, c, sums),
        0 <= upto < sums.len(),
        forall|t: int| 0 <= t < sums.len() - 1 ==> is_zero_of(#[trigger] taps[t][c]),
    ensures
        is_zero_of(sums[upto]),
    decreases upto,
{
    if upto > 0 {
        let t = upto - 1;
        lemma_sums_of_zero_taps(taps, line, c, sums, t);
        assert(is_mac(sums[t], taps[t][c], line[t].data[c], sums[t + 1]));
        let p = choose|p: S|
            is_product(taps[t][c], line[t].data[c], p) && is_sum(sums[t], p, sums[t + 1]);
    }
}

/// Every running sum over frames that tested silent is a zero.
proof fn lemma_sums_of_silence<S: Scalar, const N: usize>(
    taps: Seq<[S; N]>,
    line: Seq<Sample<S, N>>,
    c: int,
    sums: Seq<S>,
    upto: int,
)
    requires
        silence_absorbs::<S>(),
        is_running_sum(taps, line, c, sums),
        0 <= upto < sums.len(),
        forall|t: int| 0 <= t < sums.len() - 1 ==> tests_zero(#[trigger] line[t].data[c], true),
    ensures
        is_zero_of(sums[upto]),
    decreases upto,
{
    if upto > 0 {
        let t = upto - 1;
        lemma_sums_of_silence(taps, line, c, sums, t);
        assert(is_mac(sums[t], taps[t][c], line[t].data[c], sums[t + 1]));
        let p = choose|p: S|
            is_product(taps[t][c], line[t].data[c], p) && is_sum(sums[t], p, sums[t + 1]);
    }
}

/// Zero channel. Where zero absorbs, a channel whose taps are all zeros, as
/// an empty impulse leaves them, puts out a zero whatever the input is.
pub proof fn lemma_zero_channel<S: Scalar, const N: usize>(
    taps: Seq<[S; N]>,
    line: Seq<Sample<S, N>>,
    c: int,
    n: nat,
    r: S,
)
    requires
        zero_absorbs::<S>(),
        forall|t: int| 0 <= t < n ==> is_zero_of(#[trigger] taps[t][c]),
        convolves(taps, line, c, n, r),
    ensures
        is_zero_of(r),
{
    let sums = choose|sums: Seq<S>|
        (#[trigger] is_running_sum(taps, line, c, sums)) && sums.len() == n + 1 && sums[n as int]
            == r;
    lemma_sums_of_zero_taps(taps, line, c, sums, n as int);
}

/// Silence in, silence out. Where silence absorbs, a line whose frames all
/// tested silent gives a zero frame, whether the filter summed the products
/// or took the shortcut.
pub proof fn lemma_silent_line_gives_zero_frame<S: Scalar, const N: usize>(
    taps: Seq<[S; N]>,
    line: Seq<Sample<S, N>>,
    quiet: bool,
    data: [S; N],
)
    requires
        silence_absorbs::<S>(),
        taps.len() <= line.len(),
        forall|t: int| 0 <= t < taps.len() ==> is_silent((#[trigger] line[t]).data),
        is_output(taps, line, quiet, data),
    ensures
        is_zero_frame(data),
{
    if !quiet {
        assert forall|c: int| 0 <= c < N implies is_zero_of(#[trigger] data[c]) by {
            let n = taps.len();
            let sums = choose|sums: Seq<S>|
                (#[trigger] is_running_sum(taps, line, c, sums)) && sums.len() == n + 1
                    && sums[n as int] == data[c];
            lemma_sums_of_silence(taps, line, c, sums, n as int);
        }
    }
}

/// `h` is a tap that passes a value on as it is: `h` times x is x.
pub open spec fn is_unit_tap<S: Scalar>(h: S) -> bool {
    forall|x: S, p: S| #[trigger] is_product(h, x, p) ==> p == x
}

/// `h` is a tap that wipes a value out: adding `h` times x to a sum leaves
/// the sum as it is.
pub open spec fn is_zero_tap<S: Scalar>(h: S) -> bool {
    forall|x: S, p: S, a: S, r: S|
        #![trigger is_product(h, x, p), is_sum(a, p, r)]
        is_product(h, x, p) && is_sum(a, p, r) ==> r == a
}

/// A number type in which a zero plus x is x.
pub open spec fn zero_is_neutral<S: Scalar>() -> bool {
    forall|z: S, x: S, r: S| is_zero_of(z) && #[trigger] is_sum(z, x, r) ==> r == x
}

/// On whole numbers one is a unit tap, zero is a zero tap, and zero is
/// neutral.
pub proof fn lemma_i64_units()
    ensures
        is_unit_tap::<i64>(1),
        is_zero_tap::<i64>(0),
        zero_is_neutral::<i64>(),
{
    assert forall|x: i64, p: i64| #[trigger] is_product(1i64, x, p) implies p == x by {
        lemma_wrapping_product(1, x);
        lemma_crop_of_value(x);
        assert(1 * x == x);
    }
    assert forall|x: i64, p: i64, a: i64, r: i64|
        #![trigger is_product(0i64, x, p), is_sum(a, p, r)]
        is_product(0i64, x, p) && is_sum(a, p, r) implies r == a by {
        assert(0 * x == 0);
        lemma_wrapping_sum(a, 0);
        lemma_crop_of_value(a);
    }
    assert forall|z: i64, x: i64, r: i64| is_zero_of(z) && #[trigger] is_sum(z, x, r) implies r
        == x by {
        lemma_wrapping_sum(0, x);
        lemma_crop_of_value(x);
    }
}

/// Every running sum behind a unit tap at place 0 and zero taps after it is
/// channel `c` of the oldest frame.
proof fn lemma_sums_behind_a_delta<S: Scalar, const N: usize>(
    taps: Seq<[S; N]>,
    line: Seq<Sample<S, N>>,
    c: int,
    sums: Seq<S>,
    upto: int,
)
    requires
        zero_is_neutral::<S>(),
        is_running_sum(taps, line, c, sums),
        1 <= upto < sums.len(),
        is_unit_tap(taps[0][c]),
        forall|t: int| 1 <= t < sums.len() - 1 ==> is_zero_tap(#[trigger] taps[t][c]),
    ensures
        sums[upto] == line[0].data[c],
    decreases upto,
{
    let t = upto - 1;
    assert(is_mac(sums[t], taps[t][c], line[t].data[c], sums[t + 1]));
    let p = choose|p: S|
        is_product(taps[t][c], line[t].data[c], p) && is_sum(sums[t], p, sums[t + 1]);
    if upto > 1 {
        lemma_sums_behind_a_delta(taps, line, c, sums, t);
        assert(is_zero_tap(taps[t][c]));
    }
}

/// Identity impulse. Where zero is neutral, a channel whose impulse is a
/// unit tap followed by zero taps puts out channel `c` of the oldest frame
/// of its window, unchanged: the filter passes the stream through, delayed
/// by its length less one.
pub proof fn lemma_delta_passes_through<S: Scalar, const N: usize>(
    taps: Seq<[S; N]>,
    line: Seq<Sample<S, N>>,
    c: int,
    n: nat,
    r: S,
)
    requires
        zero_is_neutral::<S>(),
        n >= 1,
        is_unit_tap(taps[0][c]),
        forall|t: int| 1 <= t < n ==> is_zero_tap(#[trigger] taps[t][c]),
        convolves(taps, line, c, n, r),
    ensures
        r == line[0].data[c],
{
    let sums = choose|sums: Seq<S>|
        (#[trigger] is_running_sum(taps, line, c, sums)) && sums.len() == n + 1 && sums[n as int]
            == r;
    lemma_sums_behind_a_delta(taps, line, c, sums, n as int);
}


} // verus!
