//! Sources: signals with a time cursor and local random access, read through
//! short-lived samplers.
use vstd::prelude::*;
use crate::frame::{Frame, Sample, mixed};

verus! {

/// An audio source with a cursor and random access near it.
///
/// `sample(dt)` hands out a sampler for the stretch of `dt` time units that
/// starts at the cursor; only `advance` moves the cursor.
pub trait Source: View + Sized {
    type Sampler: Sampler<Self>;

    /// The view of the sampler that `sample(dt)` returns.
    spec fn sampler_of(s: Self::V, dt: u64) -> <Self::Sampler as View>::V;

    /// The source after `advance(dt)`.
    spec fn advanced(s: Self::V, dt: u64) -> Self::V;

    /// Time left until the data runs out.
    spec fn remaining_of(s: Self::V) -> i64;

    fn sample(&self, dt: u64) -> (r: Self::Sampler)
        ensures
            r@ == Self::sampler_of(self@, dt),
    ;

    fn advance(&mut self, dt: u64)
        ensures
            final(self)@ == Self::advanced(old(self)@, dt),
    ;

    /// Time left until the data runs out; negative once the cursor has gone past it.
    fn remaining(&self) -> (r: i64)
        ensures
            r == Self::remaining_of(self@),
    ;

    /// Turns a mono source into a stereo one.
    fn into_stereo(self) -> (r: MonoToStereo<Self>) where
        Self::Sampler: Sampler<Self, Frame = Sample>,

        ensures
            r.0 == self,
    {
        MonoToStereo(self)
    }
}

/// Reads frames of a source over the stretch that one `sample` call covers.
pub trait Sampler<T: View>: View {
    type Frame;

    /// The frame at proportion `num / den` of the stretch (`0` is the cursor,
    /// `1` its end).
    spec fn frame_at(s: Self::V, source: T::V, num: nat, den: nat) -> Self::Frame;

    fn get(&self, source: &T, num: usize, den: usize) -> (r: Self::Frame)
        ensures
            r == Self::frame_at(self@, source@, num as nat, den as nat),
    ;
}

/// Turns a mono source into a stereo one by copying each sample to both channels.
pub struct MonoToStereo<T>(pub T);

impl<T: View> View for MonoToStereo<T> {
    type V = T::V;

    open spec fn view(&self) -> T::V {
        self.0@
    }
}

/// The sampler of `MonoToStereo`.
pub struct MonoToStereoSampler<T>(pub T);

impl<T: View> View for MonoToStereoSampler<T> {
    type V = T::V;

    open spec fn view(&self) -> T::V {
        self.0@
    }
}

impl<T: Source> Source for MonoToStereo<T> where T::Sampler: Sampler<T, Frame = Sample> {
    type Sampler = MonoToStereoSampler<T::Sampler>;

    open spec fn sampler_of(s: T::V, dt: u64) -> <T::Sampler as View>::V {
        T::sampler_of(s, dt)
    }

    open spec fn advanced(s: T::V, dt: u64) -> T::V {
        T::advanced(s, dt)
    }

    open spec fn remaining_of(s: T::V) -> i64 {
        T::remaining_of(s)
    }

    fn sample(&self, dt: u64) -> (r: MonoToStereoSampler<T::Sampler>) {
        MonoToStereoSampler(self.0.sample(dt))
    }

    fn advance(&mut self, dt: u64) {
        self.0.advance(dt);
    }

    fn remaining(&self) -> (r: i64) {
        self.0.remaining()
    }
}

impl<T: Source> Sampler<MonoToStereo<T>> for MonoToStereoSampler<T::Sampler> where
    T::Sampler: Sampler<T, Frame = Sample>,
 {
    type Frame = [Sample; 2];

    open spec fn frame_at(s: <T::Sampler as View>::V, source: T::V, num: nat, den: nat) -> [Sample; 2] {
        let x = <T::Sampler as Sampler<T>>::frame_at(s, source, num, den);
        [x, x]
    }

    fn get(&self, source: &MonoToStereo<T>, num: usize, den: usize) -> (r: [Sample; 2]) {
        let x = self.0.get(&source.0, num, den);
        [x, x]
    }
}

/// The frames that one batch of `n` frames reads from source `s`, the batch
/// covering `dt` time units: frame `i` sits at proportion `i / n`.
pub open spec fn batch<T: Source>(s: T::V, dt: u64, n: nat) -> Seq<[Sample; 2]> where
    T::Sampler: Sampler<T, Frame = [Sample; 2]>,
 {
    Seq::new(n, |i: int| <T::Sampler as Sampler<T>>::frame_at(T::sampler_of(s, dt), s, i as nat, n))
}

/// Mixes one batch of a stereo source into `out`, each frame lasting
/// `frame_duration`, and advances the source past it. A source already past
/// its end is left alone, and the result says that it should be dropped.
pub fn mix_stereo<T: Source>(src: &mut T, frame_duration: u64, out: &mut [[Sample; 2]]) -> (dropped: bool) where
    T::Sampler: Sampler<T, Frame = [Sample; 2]>,

    requires
        frame_duration * old(out)@.len() <= u64::MAX,
    ensures
        dropped == (T::remaining_of(old(src)@) < 0),
        final(out)@.len() == old(out)@.len(),
        dropped ==> final(out)@ == old(out)@ && final(src)@ == old(src)@,
        !dropped ==> final(out)@ == mixed(
            old(out)@,
            batch::<T>(old(src)@, (frame_duration * old(out)@.len()) as u64, old(out)@.len()),
        ),
        !dropped ==> final(src)@ == T::advanced(
            old(src)@,
            (frame_duration * old(out)@.len()) as u64,
        ),
{
    if src.remaining() < 0 {
        return true;
    }
    let n = out.len();
    let dt: u64 = frame_duration * n as u64;
    let sampler = src.sample(dt);
    let ghost out0 = out@;
    let ghost frames = batch::<T>(src@, dt, n as nat);
    let mut i: usize = 0;
    while i < n
        invariant
            n == out@.len(),
            n == out0.len(),
            i <= n,
            frames == batch::<T>(src@, dt, n as nat),
            sampler@ == T::sampler_of(src@, dt),
            forall|j: int| 0 <= j < i ==> out@[j] == <[Sample; 2]>::mix_spec(out0[j], frames[j]),
            forall|j: int| i <= j < n ==> out@[j] == out0[j],
        decreases n - i,
    {
        let f = sampler.get(src, i, n);
        let a = out[i];
        out[i] = <[Sample; 2]>::mix(&a, &f);
        i += 1;
    }
    proof {
        assert(out@ =~= mixed(out0, frames));
    }
    src.advance(dt);
    false
}

} // verus!
