//! Arithmetic on 16-bit samples: saturation and scaling by a fixed-point
//! ratio.
//!
//! A ratio is a `u32` that counts 65536ths, so that `UNITY` stands for one.

use vstd::prelude::*;

verus! {

/// The ratio one.
pub const UNITY: u32 = 0x1_0000;

/// `x` limited to the range of a 16-bit signed sample.
pub open spec fn saturate(x: int) -> i16 {
    if x > 32767 {
        32767i16
    } else if x < -32768 {
        -32768i16
    } else {
        x as i16
    }
}

/// The quotient of `x` by 65536, rounded toward zero.
pub open spec fn truncated(x: int) -> int {
    if x >= 0 {
        x / 0x1_0000
    } else {
        -((-x) / 0x1_0000)
    }
}

/// The quotient of `x` by 65536, rounded to the nearest integer, a half
/// away from zero.
pub open spec fn rounded(x: int) -> int {
    if x >= 0 {
        (x + 0x8000) / 0x1_0000
    } else {
        -((-x + 0x8000) / 0x1_0000)
    }
}

/// `sample` times `ratio`, rounded to the nearest sample and saturated.
pub open spec fn scale_rounded(sample: i16, ratio: u32) -> i16 {
    saturate(rounded(sample as int * ratio as int))
}

/// `sample` times `ratio`, rounded toward zero and saturated.
pub open spec fn scale_truncated(sample: i16, ratio: u32) -> i16 {
    saturate(truncated(sample as int * ratio as int))
}

/// The sum of two samples, saturated.
pub open spec fn add_saturating(a: i16, b: i16) -> i16 {
    saturate(a as int + b as int)
}

/// Limits `x` to the range of a sample.
pub fn saturating_sample(x: i64) -> (s: i16)
    ensures
        s == saturate(x as int),
{
    if x > 32767 {
        32767
    } else if x < -32768 {
        -32768
    } else {
        x as i16
    }
}

/// Adds two samples, saturating at the ends of the range.
pub fn saturating_add(a: i16, b: i16) -> (s: i16)
    ensures
        s == add_saturating(a, b),
{
    saturating_sample(a as i64 + b as i64)
}

fn product(sample: i16, ratio: u32) -> (p: i64)
    ensures
        p == sample as int * ratio as int,
        -0x8000_0000_0000 <= p <= 0x8000_0000_0000,
{
    assert(-0x8000_0000_0000 <= sample as int * ratio as int <= 0x8000_0000_0000)
        by (nonlinear_arith)
        requires
            -0x8000 <= sample as int <= 0x7fff,
            0 <= ratio as int <= 0xffff_ffff,
    ;
    (sample as i64) * (ratio as i64)
}

/// Multiplies `sample` by `ratio`, rounds to the nearest sample and
/// saturates.
pub fn scaled_rounded(sample: i16, ratio: u32) -> (s: i16)
    ensures
        s == scale_rounded(sample, ratio),
{
    let p = product(sample, ratio);
    let q: i64 = if p >= 0 {
        (p + 0x8000) / 0x1_0000
    } else {
        -((-p + 0x8000) / 0x1_0000)
    };
    saturating_sample(q)
}

/// Multiplies `sample` by `ratio`, rounds toward zero and saturates.
pub fn scaled_truncated(sample: i16, ratio: u32) -> (s: i16)
    ensures
        s == scale_truncated(sample, ratio),
{
    let p = product(sample, ratio);
    let q: i64 = if p >= 0 {
        p / 0x1_0000
    } else {
        -((-p) / 0x1_0000)
    };
    saturating_sample(q)
}

/// Scaling by one changes no sample, whichever way it rounds.
pub proof fn lemma_unity_is_identity(sample: i16)
    ensures
        scale_rounded(sample, UNITY) == sample,
        scale_truncated(sample, UNITY) == sample,
{
    let p = sample as int * 0x1_0000;
    assert(sample as int * UNITY as int == p);
    if p >= 0 {
        assert((p + 0x8000) / 0x1_0000 == sample as int);
        assert(p / 0x1_0000 == sample as int);
    } else {
        assert((-p + 0x8000) / 0x1_0000 == -(sample as int));
        assert((-p) / 0x1_0000 == -(sample as int));
    }
}

} // verus!
