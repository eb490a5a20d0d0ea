//! The filter on whole numbers.
//!
//! With `i64` samples every sum and product wraps around, which is exact
//! arithmetic modulo 2^64. The output of the filter is then the sum of tap
//! times frame over the window, taken modulo 2^64, and the filter is linear
//! in its input.

use crate::fir_module::convolves;
use crate::fir_module::is_running_sum;
use crate::sample::is_mac;
use crate::sample::is_product;
use crate::sample::is_sum;
use crate::sample::Sample;
use vstd::arithmetic::div_mod::lemma_add_mod_noop;
use vstd::arithmetic::div_mod::lemma_mul_mod_noop_right;
use vstd::arithmetic::div_mod::lemma_mod_bound;
use vstd::arithmetic::div_mod::lemma_mod_multiples_vanish;
use vstd::arithmetic::div_mod::lemma_small_mod;
use vstd::prelude::*;

verus! {

/// 2^64, the number of values of an `i64`.
pub open spec fn modulus() -> int {
    0x1_0000_0000_0000_0000
}

/// The `i64` that differs from `x` by a multiple of 2^64.
pub open spec fn crop(x: int) -> i64 {
    if x % modulus() > i64::MAX {
        (x % modulus() - modulus()) as i64
    } else {
        (x % modulus()) as i64
    }
}

/// The sum of tap times frame for channel `c` over the first `n` taps, in
/// unbounded whole numbers.
pub open spec fn exact_sum<const N: usize>(
    taps: Seq<[i64; N]>,
    line: Seq<Sample<i64, N>>,
    c: int,
    n: nat,
) -> int
    decreases n,
{
    if n == 0 {
        0
    } else {
        exact_sum(taps, line, c, (n - 1) as nat) + taps[n - 1][c] * line[n - 1].data[c]
    }
}

/// Cropping changes a number by a multiple of 2^64 only.
pub proof fn lemma_crop_is_congruent(x: int)
    ensures
        crop(x) as int % modulus() == x % modulus(),
{
    let m = modulus();
    let low = x % m;
    lemma_mod_bound(x, m);
    if low > i64::MAX {
        lemma_mod_multiples_vanish(-1, low, m);
        lemma_small_mod(low as nat, m as nat);
    } else {
        lemma_small_mod(low as nat, m as nat);
    }
}

/// A value of `i64` is its own crop.
pub proof fn lemma_crop_of_value(v: i64)
    ensures
        crop(v as int) == v,
{
    let m = modulus();
    if v >= 0 {
        lemma_small_mod(v as nat, m as nat);
    } else {
        lemma_mod_multiples_vanish(1, v as int, m);
        lemma_small_mod((v + m) as nat, m as nat);
    }
}

/// Numbers that differ by a multiple of 2^64 have the same crop.
pub proof fn lemma_congruent_crops(a: int, b: int)
    requires
        a % modulus() == b % modulus(),
    ensures
        crop(a) == crop(b),
{
}

/// The wrapping sum is the sum modulo 2^64.
pub proof fn lemma_wrapping_sum(x: i64, y: i64)
    ensures
        x.wrapping_add(y) == crop(x + y),
{
    let m = modulus();
    let s = x + y;
    if s > i64::MAX {
        lemma_small_mod(s as nat, m as nat);
    } else if s < i64::MIN {
        lemma_mod_multiples_vanish(1, s, m);
        lemma_small_mod((s + m) as nat, m as nat);
    } else {
        lemma_crop_of_value(s as i64);
    }
}

/// The wrapping product is the product modulo 2^64.
pub proof fn lemma_wrapping_product(x: i64, y: i64)
    ensures
        x.wrapping_mul(y) == crop(x * y),
{
}

/// Cropping before adding changes nothing modulo 2^64.
pub proof fn lemma_crop_sum(a: int, b: int)
    ensures
        crop(crop(a) + crop(b)) == crop(a + b),
{
    let m = modulus();
    lemma_crop_is_congruent(a);
    lemma_crop_is_congruent(b);
    lemma_add_mod_noop(crop(a) as int, crop(b) as int, m);
    lemma_add_mod_noop(a, b, m);
}

/// Exactness. What the filter on `i64` puts out for channel `c` is the sum
/// of tap times frame over the window, modulo 2^64.
pub proof fn lemma_whole_filter_is_exact<const N: usize>(
    taps: Seq<[i64; N]>,
    line: Seq<Sample<i64, N>>,
    c: int,
    n: nat,
    r: i64,
)
    requires
        convolves(taps, line, c, n, r),
    ensures
        r == crop(exact_sum(taps, line, c, n)),
{
    let sums = choose|sums: Seq<i64>|
        (#[trigger] is_running_sum(taps, line, c, sums)) && sums.len() == n + 1 && sums[n as int]
            == r;
    lemma_running_sums_are_exact(taps, line, c, sums, n);
}

/// Each running sum on `i64` is the exact sum so far, modulo 2^64.
proof fn lemma_running_sums_are_exact<const N: usize>(
    taps: Seq<[i64; N]>,
    line: Seq<Sample<i64, N>>,
    c: int,
    sums: Seq<i64>,
    upto: nat,
)
    requires
        is_running_sum(taps, line, c, sums),
        upto < sums.len(),
    ensures
        sums[upto as int] == crop(exact_sum(taps, line, c, upto)),
    decreases upto,
{
    if upto == 0 {
        lemma_crop_of_value(0);
    } else {
        let t = upto - 1;
        lemma_running_sums_are_exact(taps, line, c, sums, t as nat);
        let h = taps[t][c];
        let x = line[t].data[c];
        assert(is_mac(sums[t], h, x, sums[t + 1]));
        let p = choose|p: i64| is_product(h, x, p) && is_sum(sums[t], p, sums[t + 1]);
        lemma_wrapping_product(h, x);
        lemma_wrapping_sum(sums[t], p);
        lemma_crop_of_value(sums[t]);
        lemma_crop_of_value(p);
        let before = exact_sum(taps, line, c, t as nat);
        lemma_crop_sum(before, h * x);
    }
}

/// `mix` is `alpha` times `x` plus `beta` times `y` in channel `c` of each
/// of the first `n` frames, modulo 2^64.
pub open spec fn is_mix<const N: usize>(
    x: Seq<Sample<i64, N>>,
    y: Seq<Sample<i64, N>>,
    mix: Seq<Sample<i64, N>>,
    c: int,
    n: nat,
    alpha: i64,
    beta: i64,
) -> bool {
    forall|t: int|
        0 <= t < n ==> (#[trigger] mix[t]).data[c] == crop(
            alpha * x[t].data[c] + beta * y[t].data[c],
        )
}

/// The exact sum over a mix is the mix of the exact sums, modulo 2^64.
proof fn lemma_exact_sum_of_mix<const N: usize>(
    taps: Seq<[i64; N]>,
    x: Seq<Sample<i64, N>>,
    y: Seq<Sample<i64, N>>,
    mix: Seq<Sample<i64, N>>,
    c: int,
    n: nat,
    alpha: i64,
    beta: i64,
)
    requires
        is_mix(x, y, mix, c, n, alpha, beta),
    ensures
        exact_sum(taps, mix, c, n) % modulus() == (alpha * exact_sum(taps, x, c, n) + beta
            * exact_sum(taps, y, c, n)) % modulus(),
    decreases n,
{
    if n > 0 {
        let m = modulus();
        let t = (n - 1) as nat;
        lemma_exact_sum_of_mix(taps, x, y, mix, c, t, alpha, beta);
        let h = taps[t as int][c] as int;
        let xt = x[t as int].data[c] as int;
        let yt = y[t as int].data[c] as int;
        let mt = mix[t as int].data[c] as int;
        let em = exact_sum(taps, mix, c, t);
        let ex = exact_sum(taps, x, c, t);
        let ey = exact_sum(taps, y, c, t);
        let blend = alpha * xt + beta * yt;
        lemma_crop_is_congruent(blend);
        // h * mt is h * blend modulo 2^64
        lemma_mul_mod_noop_right(h, mt, m);
        lemma_mul_mod_noop_right(h, blend, m);
        // and the sums so far agree modulo 2^64
        lemma_add_mod_noop(em, h * mt, m);
        lemma_add_mod_noop(alpha * ex + beta * ey, h * blend, m);
        assert((alpha * ex + beta * ey) + h * blend == alpha * (ex + h * xt) + beta * (ey + h * yt))
            by (nonlinear_arith)
            requires
                blend == alpha * xt + beta * yt,
        ;
    }
}

/// Linearity. On `i64` the filter of a mix is the mix of the filtered
/// inputs: where every frame of `mix` is `alpha` times the frame of `x`
/// plus `beta` times the frame of `y`, the output for `mix` is `alpha` times
/// the output for `x` plus `beta` times the output for `y`, all modulo 2^64.
pub proof fn lemma_whole_filter_is_linear<const N: usize>(
    taps: Seq<[i64; N]>,
    x: Seq<Sample<i64, N>>,
    y: Seq<Sample<i64, N>>,
    mix: Seq<Sample<i64, N>>,
    c: int,
    n: nat,
    alpha: i64,
    beta: i64,
    out_x: i64,
    out_y: i64,
    out_mix: i64,
)
    requires
        is_mix(x, y, mix, c, n, alpha, beta),
        convolves(taps, x, c, n, out_x),
        convolves(taps, y, c, n, out_y),
        convolves(taps, mix, c, n, out_mix),
    ensures
        out_mix == crop(alpha * out_x + beta * out_y),
{
    let m = modulus();
    lemma_whole_filter_is_exact(taps, x, c, n, out_x);
    lemma_whole_filter_is_exact(taps, y, c, n, out_y);
    lemma_whole_filter_is_exact(taps, mix, c, n, out_mix);
    lemma_exact_sum_of_mix(taps, x, y, mix, c, n, alpha, beta);
    let ex = exact_sum(taps, x, c, n);
    let ey = exact_sum(taps, y, c, n);
    lemma_crop_is_congruent(ex);
    lemma_crop_is_congruent(ey);
    lemma_mul_mod_noop_right(alpha as int, out_x as int, m);
    lemma_mul_mod_noop_right(alpha as int, ex, m);
    lemma_mul_mod_noop_right(beta as int, out_y as int, m);
    lemma_mul_mod_noop_right(beta as int, ey, m);
    lemma_add_mod_noop(alpha * out_x, beta * out_y, m);
    lemma_add_mod_noop(alpha * ex, beta * ey, m);
    lemma_congruent_crops(exact_sum(taps, mix, c, n), alpha * out_x + beta * out_y);
}

} // verus!
