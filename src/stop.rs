//! A play/pause/stop switch around a signal.
use vstd::prelude::*;
use crate::frame::Frame;
use crate::signal::Signal;

verus! {

/// Where a `Stop` wrapper stands.
#[derive(PartialEq, Eq, Structural, Clone, Copy, Debug)]
pub enum StopState {
    Playing,
    Paused,
    Stopped,
}

/// `n` silent frames.
pub open spec fn silence<F: Frame>(n: nat) -> Seq<F> {
    Seq::new(n, |j: int| F::zero_spec())
}

/// Fills `out` with silent frames.
pub fn fill_silence<F: Frame>(out: &mut [F])
    ensures
        final(out)@ == silence::<F>(old(out)@.len()),
{
    let n = out.len();
    let mut i: usize = 0;
    while i < n
        invariant
            n == out@.len(),
            old(out)@.len() == n,
            i <= n,
            forall|j: int| 0 <= j < i ==> out@[j] == F::zero_spec(),
        decreases n - i,
    {
        out[i] = F::zero();
        i += 1;
    }
    proof {
        assert(out@ =~= silence::<F>(n as nat));
    }
}

/// Wraps a signal with a switch: while paused it is silent and does not
/// advance; once stopped it stays stopped.
pub struct Stop<S> {
    pub state: StopState,
    pub inner: S,
}

impl<S> Stop<S> {
    /// The wrapper after `pause`: playing becomes paused, anything else stays.
    pub open spec fn paused(self) -> Self {
        if self.state == StopState::Playing {
            Stop { state: StopState::Paused, inner: self.inner }
        } else {
            self
        }
    }

    /// The wrapper after `resume`: paused becomes playing, anything else stays.
    pub open spec fn resumed(self) -> Self {
        if self.state == StopState::Paused {
            Stop { state: StopState::Playing, inner: self.inner }
        } else {
            self
        }
    }

    /// The wrapper after `stop`.
    pub open spec fn stopped(self) -> Self {
        Stop { state: StopState::Stopped, inner: self.inner }
    }

    /// Wraps `inner`, playing.
    pub fn new(inner: S) -> (r: Self)
        ensures
            r.state == StopState::Playing,
            r.inner == inner,
    {
        Stop { state: StopState::Playing, inner }
    }

    /// Suspends playback; no effect unless playing.
    pub fn pause(&mut self)
        ensures
            *final(self) == old(self).paused(),
    {
        if self.state == StopState::Playing {
            self.state = StopState::Paused;
        }
    }

    /// Continues playback where it was paused; no effect unless paused.
    pub fn resume(&mut self)
        ensures
            *final(self) == old(self).resumed(),
    {
        if self.state == StopState::Paused {
            self.state = StopState::Playing;
        }
    }

    /// Ends playback for good.
    pub fn stop(&mut self)
        ensures
            *final(self) == old(self).stopped(),
    {
        self.state = StopState::Stopped;
    }

    pub fn is_paused(&self) -> (r: bool)
        ensures
            r == (self.state == StopState::Paused),
    {
        self.state == StopState::Paused
    }

    pub fn is_stopped(&self) -> (r: bool)
        ensures
            r == (self.state == StopState::Stopped),
    {
        self.state == StopState::Stopped
    }
}

impl<S: View> View for Stop<S> {
    type V = Stop<S::V>;

    open spec fn view(&self) -> Stop<S::V> {
        Stop { state: self.state, inner: self.inner@ }
    }
}

impl<S: Signal> Signal for Stop<S> {
    type Frame = S::Frame;

    open spec fn output(s: Stop<S::V>, interval: u64, n: nat) -> Seq<S::Frame> {
        if s.state == StopState::Playing {
            S::output(s.inner, interval, n)
        } else {
            silence(n)
        }
    }

    open spec fn after(s: Stop<S::V>, interval: u64, n: nat) -> Stop<S::V> {
        if s.state == StopState::Playing {
            Stop { state: s.state, inner: S::after(s.inner, interval, n) }
        } else {
            s
        }
    }

    open spec fn remaining_of(s: Stop<S::V>) -> i64 {
        if s.state == StopState::Stopped {
            0
        } else {
            S::remaining_of(s.inner)
        }
    }

    open spec fn abandoned(s: Stop<S::V>) -> Stop<S::V> {
        Stop { state: s.state, inner: S::abandoned(s.inner) }
    }

    fn sample(&mut self, interval: u64, out: &mut [S::Frame]) {
        if self.state == StopState::Playing {
            self.inner.sample(interval, out);
        } else {
            fill_silence(out);
        }
    }

    fn remaining(&self) -> (r: i64) {
        if self.state == StopState::Stopped {
            0
        } else {
            self.inner.remaining()
        }
    }

    fn handle_dropped(&mut self) {
        self.inner.handle_dropped();
    }
}

/// A paused signal is silent, and time spent paused does not count: pausing,
/// sampling, resuming and sampling again leaves the wrapped signal where
/// sampling only the second stretch would have.
pub proof fn lemma_pause_preserves_cursor<S: Signal>(s: Stop<S::V>, interval: u64, d: nat, e: nat)
    requires
        s.state == StopState::Playing,
    ensures
        Stop::<S>::output(s.paused(), interval, d) == silence::<S::Frame>(d),
        Stop::<S>::output(Stop::<S>::after(s.paused(), interval, d).resumed(), interval, e)
            == Stop::<S>::output(s, interval, e),
        Stop::<S>::after(Stop::<S>::after(s.paused(), interval, d).resumed(), interval, e)
            == Stop::<S>::after(s, interval, e),
{
}

} // verus!
