//! Fixed-point arithmetic shared by every stage of the voice.
use vstd::prelude::*;

verus! {

/// Full scale of a sample and unit gain: a sample of `UNIT` stands for 1.0.
pub const UNIT: i32 = 32768;

/// The smallest value a saturated sample can take.
pub open spec fn sample_min() -> int {
    i32::MIN as int
}

/// The largest value a saturated sample can take.
pub open spec fn sample_max() -> int {
    i32::MAX as int
}

/// `x` held to the range of an `i32`.
pub open spec fn saturate(x: int) -> int {
    if x < sample_min() {
        sample_min()
    } else if x > sample_max() {
        sample_max()
    } else {
        x
    }
}

/// Number of samples in a span of `ms` milliseconds; never less than one, so
/// that a span of zero still gives a finite step.
pub open spec fn ramp_len(ms: u32, sample_rate: u32) -> int {
    let n = (ms as int * sample_rate as int) / 1000;
    if n < 1 { 1 } else { n }
}

/// Number of samples in a span of `ms` milliseconds, computed.
pub fn ramp_samples(ms: u32, sample_rate: u32) -> (n: u64)
    ensures
        n == ramp_len(ms, sample_rate),
{
    assert(ms as int * sample_rate as int <= u64::MAX) by (nonlinear_arith)
        requires ms <= u32::MAX, sample_rate <= u32::MAX;
    let n: u64 = (ms as u64 * sample_rate as u64) / 1000;
    if n < 1 { 1 } else { n }
}

/// Floor division of `a` by a positive `b`.
pub fn floor_div(a: i64, b: i64) -> (q: i64)
    requires
        b > 0,
        a > i64::MIN,
    ensures
        q == a / b,
{
    if a >= 0 {
        let q = (a as u64) / (b as u64);
        proof {
            assert(q as int == a / b);
        }
        q as i64
    } else {
        let n: u64 = (-a) as u64;
        let bb: u64 = b as u64;
        let c: u64 = (n + (bb - 1)) / bb;
        proof {
            lemma_floor_of_negative(n as int, bb as int);
            assert(c as int <= n as int) by (nonlinear_arith)
                requires c as int == (n as int + (bb as int - 1)) / (bb as int), bb >= 1, n >= 1;
        }
        -(c as i64)
    }
}

pub proof fn lemma_floor_of_negative(n: int, b: int)
    requires
        n > 0,
        b > 0,
    ensures
        (-n) / b == -((n + (b - 1)) / b),
{
    let c = (n + (b - 1)) / b;
    let r = (n + (b - 1)) % b;
    assert(n + (b - 1) == b * c + r && 0 <= r < b) by {
        vstd::arithmetic::div_mod::lemma_fundamental_div_mod(n + (b - 1), b);
    }
    assert(-n == (-c) * b + (b - 1 - r)) by (nonlinear_arith)
        requires n + (b - 1) == b * c + r;
    vstd::arithmetic::div_mod::lemma_fundamental_div_mod_converse(-n, b, -c, b - 1 - r);
}

} // verus!
