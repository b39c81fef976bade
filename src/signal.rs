//! Signals: stateful producers of frames, advanced in fixed time steps.
use vstd::prelude::*;
use crate::frame::Frame;

verus! {

/// What `remaining` reports for a signal that never runs out.
pub const UNBOUNDED: i64 = i64::MAX;

/// A stateful producer of frames.
///
/// Time is counted in integer units; `interval` is the time one frame covers.
/// One call of `sample` fills the whole buffer and advances the signal by
/// `interval` times the buffer's length. The spec functions describe the
/// signal through its view.
pub trait Signal: View + Sized {
    type Frame: Frame;

    /// The frames that one call of `sample` writes into a buffer of `n` frames.
    spec fn output(s: Self::V, interval: u64, n: nat) -> Seq<Self::Frame>;

    /// The signal's state after that call.
    spec fn after(s: Self::V, interval: u64, n: nat) -> Self::V;

    /// Time left until the signal runs out.
    spec fn remaining_of(s: Self::V) -> i64;

    /// The signal's state after it has been told that nobody controls it any more.
    spec fn abandoned(s: Self::V) -> Self::V;

    fn sample(&mut self, interval: u64, out: &mut [Self::Frame])
        ensures
            final(out)@.len() == old(out)@.len(),
            final(out)@ == Self::output(old(self)@, interval, old(out)@.len()),
            final(self)@ == Self::after(old(self)@, interval, old(out)@.len()),
    ;

    /// Time left until the signal runs out: `UNBOUNDED` when it never does, zero
    /// or less once it has.
    fn remaining(&self) -> (r: i64)
        ensures
            r == Self::remaining_of(self@),
    ;

    /// Called when no handle to this signal is left outside the mixer that plays it.
    fn handle_dropped(&mut self)
        ensures
            final(self)@ == Self::abandoned(old(self)@),
    ;
}

/// `r` after `n` frames of `interval` each have gone by: unchanged when
/// unbounded, otherwise decreased and clamped at `i64::MIN`.
pub open spec fn spend(r: i64, interval: u64, n: nat) -> i64 {
    if r == UNBOUNDED {
        UNBOUNDED
    } else if r - interval * n < i64::MIN {
        i64::MIN
    } else {
        (r - interval * n) as i64
    }
}

/// Computes `spend(r, interval, n)`.
pub fn spend_time(r: i64, interval: u64, n: usize) -> (out: i64)
    ensures
        out == spend(r, interval, n as nat),
{
    if r == UNBOUNDED {
        return UNBOUNDED;
    }
    proof {
        let a = interval as int;
        let b = n as int;
        assert(a * b <= 0xffff_ffff_ffff_ffff * 0xffff_ffff_ffff_ffff) by (nonlinear_arith)
            requires
                0 <= a <= 0xffff_ffff_ffff_ffff,
                0 <= b <= 0xffff_ffff_ffff_ffff,
        ;
    }
    let cost: u128 = interval as u128 * n as u128;
    let room: u128 = (r as i128 - i64::MIN as i128) as u128;
    if cost > room {
        i64::MIN
    } else {
        (r as i128 - cost as i128) as i64
    }
}

/// A signal that repeats one frame, forever or for a given time.
pub struct Constant<F> {
    pub frame: F,
    pub remaining: i64,
}

impl<F: Frame> Constant<F> {
    /// A signal that repeats `frame` and never runs out.
    pub fn new(frame: F) -> (r: Self)
        ensures
            r.frame == frame,
            r.remaining == UNBOUNDED,
    {
        Constant { frame, remaining: UNBOUNDED }
    }

    /// A signal that repeats `frame` and runs out after `duration`.
    pub fn lasting(frame: F, duration: i64) -> (r: Self)
        ensures
            r.frame == frame,
            r.remaining == duration,
    {
        Constant { frame, remaining: duration }
    }
}

impl<F> View for Constant<F> {
    type V = Constant<F>;

    open spec fn view(&self) -> Constant<F> {
        *self
    }
}

impl<F: Frame> Signal for Constant<F> {
    type Frame = F;

    open spec fn output(s: Self, interval: u64, n: nat) -> Seq<F> {
        Seq::new(n, |j: int| s.frame)
    }

    open spec fn after(s: Self, interval: u64, n: nat) -> Self {
        Constant { frame: s.frame, remaining: spend(s.remaining, interval, n) }
    }

    open spec fn remaining_of(s: Self) -> i64 {
        s.remaining
    }

    open spec fn abandoned(s: Self) -> Self {
        s
    }

    fn sample(&mut self, interval: u64, out: &mut [F]) {
        let n = out.len();
        let mut i: usize = 0;
        while i < n
            invariant
                n == out@.len(),
                old(out)@.len() == n,
                i <= n,
                forall|j: int| 0 <= j < i ==> out@[j] == self.frame,
            decreases n - i,
        {
            out[i] = self.frame;
            i += 1;
        }
        proof {
            assert(out@ =~= Self::output(*self, interval, n as nat));
        }
        self.remaining = spend_time(self.remaining, interval, n);
    }

    fn remaining(&self) -> (r: i64) {
        self.remaining
    }

    fn handle_dropped(&mut self) {
    }
}

} // verus!
