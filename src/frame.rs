//! Frames: one fixed-point sample per channel, with a zero and a mixing sum.
use vstd::prelude::*;

verus! {

/// One channel's value at one instant, in fixed-point units.
pub type Sample = i32;

/// Clamps an exact sum to the range of a `Sample`.
pub open spec fn clamp_sample(v: int) -> Sample {
    if v > i32::MAX {
        i32::MAX
    } else if v < i32::MIN {
        i32::MIN
    } else {
        v as Sample
    }
}

/// Adds two samples, saturating at the ends of the range.
pub fn add_samples(a: Sample, b: Sample) -> (r: Sample)
    ensures
        r == clamp_sample(a + b),
{
    let s: i64 = a as i64 + b as i64;
    if s > i32::MAX as i64 {
        i32::MAX
    } else if s < i32::MIN as i64 {
        i32::MIN
    } else {
        s as i32
    }
}

/// A value for each output channel at one instant.
pub trait Frame: Sized + Copy {
    /// The silent frame: every channel zero.
    spec fn zero_spec() -> Self;

    /// Channel-wise saturating sum of two frames.
    spec fn mix_spec(a: Self, b: Self) -> Self;

    fn zero() -> (r: Self)
        ensures
            r == Self::zero_spec(),
    ;

    fn mix(a: &Self, b: &Self) -> (r: Self)
        ensures
            r == Self::mix_spec(*a, *b),
    ;
}

/// Mono frames.
impl Frame for Sample {
    open spec fn zero_spec() -> Self {
        0
    }

    open spec fn mix_spec(a: Self, b: Self) -> Self {
        clamp_sample(a + b)
    }

    fn zero() -> (r: Self) {
        0
    }

    fn mix(a: &Self, b: &Self) -> (r: Self) {
        add_samples(*a, *b)
    }
}

/// Stereo frames: left, then right.
impl Frame for [Sample; 2] {
    open spec fn zero_spec() -> Self {
        [0, 0]
    }

    open spec fn mix_spec(a: Self, b: Self) -> Self {
        [clamp_sample(a[0] + b[0]), clamp_sample(a[1] + b[1])]
    }

    fn zero() -> (r: Self) {
        [0, 0]
    }

    fn mix(a: &Self, b: &Self) -> (r: Self) {
        [add_samples(a[0], b[0]), add_samples(a[1], b[1])]
    }
}

/// `out` with `add` mixed into it, frame by frame.
pub open spec fn mixed<F: Frame>(out: Seq<F>, add: Seq<F>) -> Seq<F> {
    Seq::new(out.len(), |j: int| F::mix_spec(out[j], add[j]))
}

/// Mixes `b` into `a`.
pub fn mix<T: Frame>(a: &T, b: &T) -> (r: T)
    ensures
        r == T::mix_spec(*a, *b),
{
    T::mix(a, b)
}

} // verus!
