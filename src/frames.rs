//! A source that plays back a buffer of recorded frames.
use vstd::prelude::*;
use crate::frame::Frame;
use crate::source::{Sampler, Source};

verus! {

/// Plays back `frames`, each held for `period` time units, from time `cursor`.
pub struct Frames<F> {
    pub frames: Vec<F>,
    pub period: u64,
    pub cursor: u64,
}

/// What a `Frames` source holds.
pub struct FramesView<F> {
    pub frames: Seq<F>,
    pub period: u64,
    pub cursor: u64,
}

impl<F> View for Frames<F> {
    type V = FramesView<F>;

    open spec fn view(&self) -> FramesView<F> {
        FramesView { frames: self.frames@, period: self.period, cursor: self.cursor }
    }
}

/// The frame that sounds at time `pos`: the one whose period holds `pos`, and
/// silence outside the recording.
pub open spec fn frame_at_time<F: Frame>(frames: Seq<F>, period: u64, pos: int) -> F {
    if period == 0 || pos < 0 || pos / (period as int) >= frames.len() {
        F::zero_spec()
    } else {
        frames[pos / (period as int)]
    }
}

/// `v` clamped to the range of `i64`.
pub open spec fn clamp_i64(v: int) -> i64 {
    if v > i64::MAX {
        i64::MAX
    } else if v < i64::MIN {
        i64::MIN
    } else {
        v as i64
    }
}

/// The sampler of `Frames`: the stretch of `dt` time units from `start`.
#[derive(Clone, Copy)]
pub struct FramesSampler {
    pub start: u64,
    pub dt: u64,
}

impl View for FramesSampler {
    type V = FramesSampler;

    open spec fn view(&self) -> FramesSampler {
        *self
    }
}

impl<F: Frame> Frames<F> {
    /// Plays `frames`, each held for `period` time units, from their start.
    pub fn new(frames: Vec<F>, period: u64) -> (r: Self)
        ensures
            r@ == (FramesView { frames: frames@, period, cursor: 0 }),
    {
        Frames { frames, period, cursor: 0 }
    }
}

proof fn lemma_product_fits(a: int, b: int)
    requires
        0 <= a <= u64::MAX,
        0 <= b <= u64::MAX,
    ensures
        0 <= a * b <= u128::MAX,
{
    assert(0 <= a * b <= u64::MAX * u64::MAX) by (nonlinear_arith)
        requires
            0 <= a <= u64::MAX,
            0 <= b <= u64::MAX,
    ;
}

impl<F: Frame> Source for Frames<F> {
    type Sampler = FramesSampler;

    open spec fn sampler_of(s: FramesView<F>, dt: u64) -> FramesSampler {
        FramesSampler { start: s.cursor, dt }
    }

    open spec fn advanced(s: FramesView<F>, dt: u64) -> FramesView<F> {
        FramesView {
            frames: s.frames,
            period: s.period,
            cursor: if s.cursor + dt > u64::MAX {
                u64::MAX
            } else {
                (s.cursor + dt) as u64
            },
        }
    }

    open spec fn remaining_of(s: FramesView<F>) -> i64 {
        clamp_i64(s.frames.len() * s.period - s.cursor)
    }

    fn sample(&self, dt: u64) -> (r: FramesSampler) {
        FramesSampler { start: self.cursor, dt }
    }

    fn advance(&mut self, dt: u64) {
        self.cursor = self.cursor.saturating_add(dt);
    }

    fn remaining(&self) -> (r: i64) {
        let len = self.frames.len();
        proof {
            lemma_product_fits(len as int, self.period as int);
        }
        let limit: u128 = len as u128 * self.period as u128;
        let c: u128 = self.cursor as u128;
        if limit >= c {
            let d: u128 = limit - c;
            if d > i64::MAX as u128 {
                i64::MAX
            } else {
                d as i64
            }
        } else {
            let d: u128 = c - limit;
            if d > 0x8000_0000_0000_0000u128 {
                i64::MIN
            } else {
                (0i128 - d as i128) as i64
            }
        }
    }
}

impl<F: Frame> Sampler<Frames<F>> for FramesSampler {
    type Frame = F;

    open spec fn frame_at(s: FramesSampler, source: FramesView<F>, num: nat, den: nat) -> F {
        let off = if den == 0 {
            0
        } else {
            (s.dt * num) / (den as int)
        };
        frame_at_time(source.frames, source.period, s.start + off)
    }

    fn get(&self, source: &Frames<F>, num: usize, den: usize) -> (r: F) {
        proof {
            lemma_product_fits(self.dt as int, num as int);
        }
        let off: u128 = if den == 0 {
            0
        } else {
            (self.dt as u128 * num as u128) / den as u128
        };
        if source.period == 0 {
            return F::zero();
        }
        let len = source.frames.len();
        proof {
            lemma_product_fits(len as int, source.period as int);
        }
        let p: u128 = source.period as u128;
        let limit: u128 = len as u128 * p;
        if off >= limit || self.start as u128 >= limit - off {
            proof {
                let pos = self.start + off;
                assert(pos >= len * p);
                assert(pos / (p as int) >= len) by (nonlinear_arith)
                    requires
                        pos >= len * p,
                        p > 0,
                        len >= 0,
                ;
            }
            return F::zero();
        }
        let pos: u128 = self.start as u128 + off;
        let idx: u128 = pos / p;
        proof {
            assert(idx < len) by (nonlinear_arith)
                requires
                    pos < len * p,
                    p > 0,
                    idx == pos / p,
                    pos >= 0,
            ;
        }
        source.frames[idx as usize]
    }
}

} // verus!
