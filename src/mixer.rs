//! The mixer: a signal that owns a changing set of signals and sums their output.
use vstd::prelude::*;
use crate::frame::{Frame, Sample, clamp_sample, mixed};
use crate::handoff::{Handoff, swap_removed};
use crate::signal::{Constant, Signal, UNBOUNDED};
use crate::stop::{Stop, StopState, silence, fill_silence};

verus! {

broadcast use vstd::array::group_array_axioms;

/// Frames in the scratch buffer through which each entry is sampled.
pub const BUFFER_FRAMES: usize = 1024;

/// One playing signal, as the mixer holds it.
pub struct Entry<S> {
    /// The number of the `play` call that made it; its handle names it by this.
    pub id: u64,
    /// Whether the handle that `play` returned is still held outside the mixer.
    pub held: bool,
    pub signal: Stop<S>,
}

impl<S: View> View for Entry<S> {
    type V = Entry<S::V>;

    open spec fn view(&self) -> Entry<S::V> {
        Entry { id: self.id, held: self.held, signal: self.signal@ }
    }
}

/// The state that one pass over the entries works on.
pub struct Tick<V, F> {
    pub live: Seq<Entry<V>>,
    pub out: Seq<F>,
    pub buffer: Seq<F>,
}

/// The size of the next chunk when `n` frames are still to be sampled.
pub open spec fn chunk(n: nat) -> nat {
    if n < BUFFER_FRAMES {
        n
    } else {
        BUFFER_FRAMES as nat
    }
}

/// Sampling `n` frames of `sig` through the scratch buffer `buf`, one chunk at
/// a time: the signal's state afterwards, the frames in order, and what the
/// buffer holds afterwards.
pub open spec fn render<S: Signal>(sig: Stop<S::V>, interval: u64, n: nat, buf: Seq<S::Frame>) -> (
    Stop<S::V>,
    Seq<S::Frame>,
    Seq<S::Frame>,
)
    decreases n,
{
    if n == 0 {
        (sig, Seq::empty(), buf)
    } else {
        let c = chunk(n);
        let frames = Stop::<S>::output(sig, interval, c);
        let rest = render::<S>(
            Stop::<S>::after(sig, interval, c),
            interval,
            (n - c) as nat,
            frames + buf.subrange(c as int, buf.len() as int),
        );
        (rest.0, frames + rest.1, rest.2)
    }
}

/// An entry after the checks that start its turn: a signal whose handle is
/// gone is told so, and one that has run out is stopped.
pub open spec fn prepared<S: Signal>(e: Entry<S::V>) -> Entry<S::V> {
    let sig = if e.held {
        e.signal
    } else {
        Stop::<S>::abandoned(e.signal)
    };
    let sig = if Stop::<S>::remaining_of(sig) <= 0 {
        sig.stopped()
    } else {
        sig
    };
    Entry { id: e.id, held: e.held, signal: sig }
}

/// Entry `i`'s turn: a stopped entry leaves, a paused one is skipped, a
/// playing one is sampled over the whole output and mixed into it.
pub open spec fn visit<S: Signal>(t: Tick<S::V, S::Frame>, interval: u64, i: int) -> Tick<
    S::V,
    S::Frame,
> {
    let e = prepared::<S>(t.live[i]);
    if e.signal.state == StopState::Stopped {
        Tick { live: swap_removed(t.live, i), out: t.out, buffer: t.buffer }
    } else if e.signal.state == StopState::Paused {
        Tick { live: t.live.update(i, e), out: t.out, buffer: t.buffer }
    } else {
        let r = render::<S>(e.signal, interval, t.out.len(), t.buffer);
        Tick {
            live: t.live.update(i, Entry { id: e.id, held: e.held, signal: r.0 }),
            out: mixed(t.out, r.1),
            buffer: r.2,
        }
    }
}

/// The turns of entries `k - 1` down to `0`.
pub open spec fn run<S: Signal>(t: Tick<S::V, S::Frame>, interval: u64, k: nat) -> Tick<
    S::V,
    S::Frame,
>
    decreases k,
{
    if k == 0 {
        t
    } else {
        run::<S>(visit::<S>(t, interval, k - 1), interval, (k - 1) as nat)
    }
}

/// What a `Mixer` holds.
pub struct MixerView<V, F> {
    /// Entries that the next tick visits.
    pub live: Seq<Entry<V>>,
    /// Entries played since the last tick.
    pub pending: Seq<Entry<V>>,
    /// The scratch buffer.
    pub buffer: Seq<F>,
    /// The number that the next `play` gives its entry.
    pub next_id: u64,
}

/// One tick of `n` frames: pending entries join, the output starts silent, and
/// every entry takes its turn, from the last slot to the first.
pub open spec fn tick<S: Signal>(m: MixerView<S::V, S::Frame>, interval: u64, n: nat) -> Tick<
    S::V,
    S::Frame,
> {
    let all = m.live + m.pending;
    run::<S>(Tick { live: all, out: silence(n), buffer: m.buffer }, interval, all.len())
}

/// Samples `sig` over the whole of `out` in chunks through `buffer`, mixing
/// each chunk into its place in `out`.
fn render_into<S: Signal>(
    sig: &mut Stop<S>,
    interval: u64,
    out: &mut [S::Frame],
    buffer: &mut [S::Frame; BUFFER_FRAMES],
)
    ensures
        final(out)@.len() == old(out)@.len(),
        final(sig)@ == render::<S>(old(sig)@, interval, old(out)@.len(), old(buffer)@).0,
        final(out)@ == mixed(
            old(out)@,
            render::<S>(old(sig)@, interval, old(out)@.len(), old(buffer)@).1,
        ),
        final(buffer)@ == render::<S>(old(sig)@, interval, old(out)@.len(), old(buffer)@).2,
{
    let n = out.len();
    let ghost out0 = out@;
    let ghost total = render::<S>(sig@, interval, n as nat, buffer@);
    let ghost mut produced: Seq<S::Frame> = Seq::empty();
    let mut off: usize = 0;
    while off < n
        invariant
            n == out@.len(),
            n == out0.len(),
            off <= n,
            produced.len() == off,
            buffer@.len() == BUFFER_FRAMES,
            total.0 == render::<S>(sig@, interval, (n - off) as nat, buffer@).0,
            total.2 == render::<S>(sig@, interval, (n - off) as nat, buffer@).2,
            total.1 == produced + render::<S>(sig@, interval, (n - off) as nat, buffer@).1,
            forall|j: int| 0 <= j < off ==> out@[j] == S::Frame::mix_spec(out0[j], produced[j]),
            forall|j: int| off <= j < n ==> out@[j] == out0[j],
        decreases n - off,
    {
        let c: usize = if n - off < BUFFER_FRAMES {
            n - off
        } else {
            BUFFER_FRAMES
        };
        let ghost sig_before = sig@;
        let ghost buf_before = buffer@;
        let ghost rem = (n - off) as nat;
        {
            let whole: &mut [S::Frame] = buffer;
            let (staging, _unused) = whole.split_at_mut(c);
            sig.sample(interval, staging);
        }
        let ghost frames = Stop::<S>::output(sig_before, interval, c as nat);
        proof {
            assert(chunk(rem) == c);
            assert(buffer@ =~= frames + buf_before.subrange(c as int, buf_before.len() as int));
        }
        let mut j: usize = 0;
        while j < c
            invariant
                n == out@.len(),
                n == out0.len(),
                c <= BUFFER_FRAMES,
                off + c <= n,
                j <= c,
                frames.len() == c,
                buffer@.len() == BUFFER_FRAMES,
                forall|k: int| 0 <= k < c ==> buffer@[k] == frames[k],
                forall|k: int| 0 <= k < off ==> out@[k] == S::Frame::mix_spec(out0[k], produced[k]),
                forall|k: int|
                    off <= k < off + j ==> out@[k] == S::Frame::mix_spec(out0[k], frames[k - off]),
                forall|k: int| off + j <= k < n ==> out@[k] == out0[k],
            decreases c - j,
        {
            let a = out[off + j];
            let b = buffer[j];
            out[off + j] = S::Frame::mix(&a, &b);
            j += 1;
        }
        proof {
            produced = produced + frames;
            assert(total.1 == produced + render::<S>(
                sig@,
                interval,
                (n - (off + c)) as nat,
                buffer@,
            ).1);
        }
        off += c;
    }
    proof {
        assert(out@ =~= mixed(out0, total.1));
    }
}

/// Entry `i`'s turn, as `visit` describes it.
fn visit_entry<S: Signal>(
    set: &mut Handoff<Entry<S>>,
    buffer: &mut [S::Frame; BUFFER_FRAMES],
    interval: u64,
    i: usize,
    out: &mut [S::Frame],
)
    requires
        i < old(set)@.live.len(),
    ensures
        final(out)@.len() == old(out)@.len(),
        final(set)@.pending == old(set)@.pending,
        (Tick { live: final(set)@.live, out: final(out)@, buffer: final(buffer)@ }) == visit::<S>(
            Tick { live: old(set)@.live, out: old(out)@, buffer: old(buffer)@ },
            interval,
            i as int,
        ),
{
    let ghost live0 = set@.live;
    let e = set.get_mut(i);
    if !e.held {
        e.signal.handle_dropped();
    }
    if e.signal.remaining() <= 0 {
        e.signal.stop();
    }
    if e.signal.is_stopped() {
        let _gone = set.remove(i);
        proof {
            assert(set@.live =~= swap_removed(live0, i as int));
        }
        return;
    }
    if e.signal.is_paused() {
        return;
    }
    render_into(&mut e.signal, interval, out, buffer);
}


/// A handle to an entry that `play` started: it names the entry, and pausing,
/// resuming, stopping and releasing go through it.
pub struct Handle {
    id: u64,
}

impl View for Handle {
    type V = u64;

    closed spec fn view(&self) -> u64 {
        self.id
    }
}

impl Handle {
    /// The number of the `play` call that this handle came from.
    pub fn id(&self) -> (r: u64)
        ensures
            r == self@,
    {
        self.id
    }
}

/// What the control side can do to a playing entry.
#[derive(PartialEq, Eq, Structural, Clone, Copy, Debug)]
pub enum Command {
    Pause,
    Resume,
    Stop,
    /// The entry's handle is given up.
    Release,
}

/// Entry `e` after command `c` sent to the entry numbered `id`.
pub open spec fn commanded<V>(e: Entry<V>, id: u64, c: Command) -> Entry<V> {
    if e.id != id {
        e
    } else {
        match c {
            Command::Pause => Entry { id: e.id, held: e.held, signal: e.signal.paused() },
            Command::Resume => Entry { id: e.id, held: e.held, signal: e.signal.resumed() },
            Command::Stop => Entry { id: e.id, held: e.held, signal: e.signal.stopped() },
            Command::Release => Entry { id: e.id, held: false, signal: e.signal },
        }
    }
}

/// Every entry of `s` after command `c` sent to the entry numbered `id`.
pub open spec fn commanded_all<V>(s: Seq<Entry<V>>, id: u64, c: Command) -> Seq<Entry<V>> {
    Seq::new(s.len(), |j: int| commanded(s[j], id, c))
}

/// The number that follows `id`, wrapping after the largest.
pub open spec fn following(id: u64) -> u64 {
    if id == u64::MAX {
        0
    } else {
        (id + 1) as u64
    }
}

/// The entry that `play` makes of `signal`.
pub open spec fn fresh_entry<V>(id: u64, signal: V) -> Entry<V> {
    Entry { id, held: true, signal: Stop { state: StopState::Playing, inner: signal } }
}

fn command_entry<S: Signal>(e: &mut Entry<S>, id: u64, c: Command)
    ensures
        final(e)@ == commanded(old(e)@, id, c),
{
    if e.id == id {
        match c {
            Command::Pause => e.signal.pause(),
            Command::Resume => e.signal.resume(),
            Command::Stop => e.signal.stop(),
            Command::Release => e.held = false,
        }
    }
}

/// A signal that sums a changing set of signals.
///
/// `play` adds a signal on the control side; it joins at the start of the
/// next `sample`. Each `sample` visits every entry: a stopped or exhausted one
/// leaves, a paused one is skipped, and a playing one is sampled through a
/// fixed scratch buffer and mixed into the output.
pub struct Mixer<S: Signal> {
    set: Handoff<Entry<S>>,
    buffer: [S::Frame; BUFFER_FRAMES],
    next_id: u64,
}

impl<S: Signal> View for Mixer<S> {
    type V = MixerView<S::V, S::Frame>;

    closed spec fn view(&self) -> MixerView<S::V, S::Frame> {
        MixerView {
            live: self.set@.live,
            pending: self.set@.pending,
            buffer: self.buffer@,
            next_id: self.next_id,
        }
    }
}

impl<S: Signal> Mixer<S> {
    /// A mixer with nothing to play.
    pub fn new() -> (r: Self)
        ensures
            r@.live == Seq::<Entry<S::V>>::empty(),
            r@.pending == Seq::<Entry<S::V>>::empty(),
            r@.buffer == silence::<S::Frame>(BUFFER_FRAMES as nat),
            r@.next_id == 0,
    {
        let r = Mixer { set: Handoff::new(), buffer: [S::Frame::zero(); BUFFER_FRAMES], next_id: 0 };
        proof {
            assert(r@.buffer =~= silence::<S::Frame>(BUFFER_FRAMES as nat));
        }
        r
    }

    /// Starts `signal`, wrapped in a playing `Stop`; it joins at the next tick.
    pub fn play(&mut self, signal: S) -> (h: Handle)
        ensures
            h@ == old(self)@.next_id,
            final(self)@ == (MixerView {
                live: old(self)@.live,
                pending: old(self)@.pending.push(fresh_entry(old(self)@.next_id, signal@)),
                buffer: old(self)@.buffer,
                next_id: following(old(self)@.next_id),
            }),
    {
        let id = self.next_id;
        self.set.insert(Entry { id, held: true, signal: Stop::new(signal) });
        self.next_id = if id == u64::MAX {
            0
        } else {
            id + 1
        };
        Handle { id }
    }

    /// The number of entries that the next tick visits before pending ones join.
    pub fn len(&self) -> (r: usize)
        ensures
            r == self@.live.len(),
    {
        self.set.len()
    }

    /// Sends `c` to every entry, visible or pending, numbered `id`.
    pub fn command(&mut self, id: u64, c: Command)
        ensures
            final(self)@ == (MixerView {
                live: commanded_all(old(self)@.live, id, c),
                pending: commanded_all(old(self)@.pending, id, c),
                buffer: old(self)@.buffer,
                next_id: old(self)@.next_id,
            }),
    {
        let n = self.set.len();
        let mut i: usize = 0;
        while i < n
            invariant
                n == old(self)@.live.len(),
                self@.live.len() == n,
                i <= n,
                self@.pending == old(self)@.pending,
                self@.buffer == old(self)@.buffer,
                self@.next_id == old(self)@.next_id,
                forall|j: int| 0 <= j < i ==> self@.live[j] == commanded(old(self)@.live[j], id, c),
                forall|j: int| i <= j < n ==> self@.live[j] == old(self)@.live[j],
            decreases n - i,
        {
            command_entry(self.set.get_mut(i), id, c);
            i += 1;
        }
        let p = self.set.pending_len();
        let mut i: usize = 0;
        while i < p
            invariant
                p == old(self)@.pending.len(),
                self@.pending.len() == p,
                i <= p,
                self@.live == commanded_all(old(self)@.live, id, c),
                self@.buffer == old(self)@.buffer,
                self@.next_id == old(self)@.next_id,
                forall|j: int| 0 <= j < i ==> self@.pending[j] == commanded(old(self)@.pending[j], id, c),
                forall|j: int| i <= j < p ==> self@.pending[j] == old(self)@.pending[j],
            decreases p - i,
        {
            command_entry(self.set.pending_mut(i), id, c);
            i += 1;
        }
        proof {
            assert(self@.live =~= commanded_all(old(self)@.live, id, c));
            assert(self@.pending =~= commanded_all(old(self)@.pending, id, c));
        }
    }
}

impl<S: Signal> Default for Mixer<S> {
    fn default() -> (r: Self)
        ensures
            r@.live == Seq::<Entry<S::V>>::empty(),
            r@.pending == Seq::<Entry<S::V>>::empty(),
            r@.buffer == silence::<S::Frame>(BUFFER_FRAMES as nat),
            r@.next_id == 0,
    {
        Self::new()
    }
}

impl<S: Signal> Signal for Mixer<S> {
    type Frame = S::Frame;

    open spec fn output(m: MixerView<S::V, S::Frame>, interval: u64, n: nat) -> Seq<S::Frame> {
        tick::<S>(m, interval, n).out
    }

    open spec fn after(m: MixerView<S::V, S::Frame>, interval: u64, n: nat) -> MixerView<
        S::V,
        S::Frame,
    > {
        let t = tick::<S>(m, interval, n);
        MixerView { live: t.live, pending: Seq::empty(), buffer: t.buffer, next_id: m.next_id }
    }

    open spec fn remaining_of(m: MixerView<S::V, S::Frame>) -> i64 {
        UNBOUNDED
    }

    open spec fn abandoned(m: MixerView<S::V, S::Frame>) -> MixerView<S::V, S::Frame> {
        m
    }

    fn sample(&mut self, interval: u64, out: &mut [S::Frame]) {
        let ghost m0 = self@;
        let ghost n = out@.len();
        self.set.update();
        fill_silence(out);
        let ghost t0 = Tick { live: self.set@.live, out: out@, buffer: self.buffer@ };
        let ghost k0 = self.set@.live.len();
        proof {
            assert(t0 == Tick { live: m0.live + m0.pending, out: silence::<S::Frame>(n), buffer: m0.buffer });
        }
        let mut k = self.set.len();
        while k > 0
            invariant
                k <= self@.live.len(),
                self@.pending == Seq::<Entry<S::V>>::empty(),
                self@.next_id == m0.next_id,
                out@.len() == n,
                run::<S>(Tick { live: self@.live, out: out@, buffer: self@.buffer }, interval, k as nat)
                    == run::<S>(t0, interval, k0),
            decreases k,
        {
            k -= 1;
            visit_entry(&mut self.set, &mut self.buffer, interval, k, out);
        }
        proof {
            assert(self@.pending =~= Self::after(m0, interval, n).pending);
        }
    }

    fn remaining(&self) -> (r: i64) {
        UNBOUNDED
    }

    fn handle_dropped(&mut self) {
    }
}

/// The control side of a mixer: starts signals and steers them through their
/// handles.
pub struct MixerControl<'a, S: Signal>(pub &'a mut Mixer<S>);

impl<'a, S: Signal> MixerControl<'a, S> {
    /// Starts `signal`, wrapped in a playing `Stop`, and returns its handle.
    /// The mixer picks it up at its next tick.
    pub fn play(&mut self, signal: S) -> (h: Handle)
        ensures
            h@ == old(self).0@.next_id,
            final(self).0@ == (MixerView {
                live: old(self).0@.live,
                pending: old(self).0@.pending.push(fresh_entry(old(self).0@.next_id, signal@)),
                buffer: old(self).0@.buffer,
                next_id: following(old(self).0@.next_id),
            }),
    {
        self.0.play(signal)
    }

    /// Pauses the entry of `h`: it stays silent, and does not advance, until resumed.
    pub fn pause(&mut self, h: &Handle)
        ensures
            final(self).0@ == (MixerView {
                live: commanded_all(old(self).0@.live, h@, Command::Pause),
                pending: commanded_all(old(self).0@.pending, h@, Command::Pause),
                buffer: old(self).0@.buffer,
                next_id: old(self).0@.next_id,
            }),
    {
        self.0.command(h.id, Command::Pause);
    }

    /// Resumes the entry of `h` where it was paused.
    pub fn resume(&mut self, h: &Handle)
        ensures
            final(self).0@ == (MixerView {
                live: commanded_all(old(self).0@.live, h@, Command::Resume),
                pending: commanded_all(old(self).0@.pending, h@, Command::Resume),
                buffer: old(self).0@.buffer,
                next_id: old(self).0@.next_id,
            }),
    {
        self.0.command(h.id, Command::Resume);
    }

    /// Stops the entry of `h` for good; the next tick removes it.
    pub fn stop(&mut self, h: &Handle)
        ensures
            final(self).0@ == (MixerView {
                live: commanded_all(old(self).0@.live, h@, Command::Stop),
                pending: commanded_all(old(self).0@.pending, h@, Command::Stop),
                buffer: old(self).0@.buffer,
                next_id: old(self).0@.next_id,
            }),
    {
        self.0.command(h.id, Command::Stop);
    }

    /// Gives up `h`. The entry keeps playing; at each tick its signal is told
    /// that nobody controls it any more.
    pub fn release(&mut self, h: Handle)
        ensures
            final(self).0@ == (MixerView {
                live: commanded_all(old(self).0@.live, h@, Command::Release),
                pending: commanded_all(old(self).0@.pending, h@, Command::Release),
                buffer: old(self).0@.buffer,
                next_id: old(self).0@.next_id,
            }),
    {
        self.0.command(h.id, Command::Release);
    }
}


/// Sampling in chunks leaves a playing signal playing.
pub proof fn lemma_render_keeps_state<S: Signal>(
    sig: Stop<S::V>,
    interval: u64,
    n: nat,
    buf: Seq<S::Frame>,
)
    ensures
        render::<S>(sig, interval, n, buf).0.state == sig.state,
    decreases n,
{
    if n > 0 {
        let c = chunk(n);
        let frames = Stop::<S>::output(sig, interval, c);
        lemma_render_keeps_state::<S>(
            Stop::<S>::after(sig, interval, c),
            interval,
            (n - c) as nat,
            frames + buf.subrange(c as int, buf.len() as int),
        );
    }
}

/// Sampling a playing constant signal in chunks gives its frame throughout.
pub proof fn lemma_render_constant<F: Frame>(
    sig: Stop<Constant<F>>,
    interval: u64,
    n: nat,
    buf: Seq<F>,
)
    requires
        sig.state == StopState::Playing,
    ensures
        render::<Constant<F>>(sig, interval, n, buf).1 == Seq::new(n, |j: int| sig.inner.frame),
    decreases n,
{
    if n > 0 {
        let c = chunk(n);
        let frames = Stop::<Constant<F>>::output(sig, interval, c);
        let next = Stop::<Constant<F>>::after(sig, interval, c);
        lemma_render_constant::<F>(
            next,
            interval,
            (n - c) as nat,
            frames + buf.subrange(c as int, buf.len() as int),
        );
        assert(render::<Constant<F>>(sig, interval, n, buf).1 =~= Seq::new(
            n,
            |j: int| sig.inner.frame,
        ));
    } else {
        assert(render::<Constant<F>>(sig, interval, n, buf).1 =~= Seq::new(
            n,
            |j: int| sig.inner.frame,
        ));
    }
}

/// Two constant mono signals, playing with time left, mix to the saturating
/// sum of their samples in every frame of a tick.
pub proof fn lemma_superposition(m: MixerView<Constant<Sample>, Sample>, interval: u64, n: nat)
    requires
        (m.live + m.pending).len() == 2,
        forall|i: int|
            0 <= i < 2 ==> (#[trigger] (m.live + m.pending)[i]).signal.state == StopState::Playing
                && (m.live + m.pending)[i].signal.inner.remaining > 0,
    ensures
        Mixer::<Constant<Sample>>::output(m, interval, n) == Seq::new(
            n,
            |j: int|
                clamp_sample(
                    (m.live + m.pending)[0].signal.inner.frame + (m.live + m.pending)[1].signal.inner.frame,
                ),
        ),
{
    let all = m.live + m.pending;
    let a = all[0].signal.inner.frame;
    let b = all[1].signal.inner.frame;
    let t0 = Tick { live: all, out: silence::<Sample>(n), buffer: m.buffer };
    assert(all[0].signal.state == StopState::Playing);
    assert(all[1].signal.state == StopState::Playing);
    assert(prepared::<Constant<Sample>>(all[1]) == all[1]);
    let r1 = render::<Constant<Sample>>(all[1].signal, interval, n, m.buffer);
    lemma_render_constant::<Sample>(all[1].signal, interval, n, m.buffer);
    let t1 = visit::<Constant<Sample>>(t0, interval, 1);
    assert(t1.live[0] == all[0]);
    assert(prepared::<Constant<Sample>>(t1.live[0]) == all[0]);
    lemma_render_constant::<Sample>(all[0].signal, interval, n, t1.buffer);
    let t2 = visit::<Constant<Sample>>(t1, interval, 0);
    assert(run::<Constant<Sample>>(t0, interval, 2) == run::<Constant<Sample>>(t1, interval, 1));
    assert(run::<Constant<Sample>>(t1, interval, 1) == run::<Constant<Sample>>(t2, interval, 0));
    assert(run::<Constant<Sample>>(t0, interval, 2) == t2);
    assert(t2.out =~= Seq::new(n, |j: int| clamp_sample(a + b)));
}

/// An entry whose time has run out when its turn comes leaves the mixer, the
/// last entry taking its slot, and adds nothing to the output.
pub proof fn lemma_exhausted_removed<S: Signal>(t: Tick<S::V, S::Frame>, interval: u64, i: int)
    requires
        0 <= i < t.live.len(),
        Stop::<S>::remaining_of(
            if t.live[i].held {
                t.live[i].signal
            } else {
                Stop::<S>::abandoned(t.live[i].signal)
            },
        ) <= 0,
    ensures
        visit::<S>(t, interval, i).live == swap_removed(t.live, i),
        visit::<S>(t, interval, i).live.len() == t.live.len() - 1,
        visit::<S>(t, interval, i).out == t.out,
{
}

/// Giving up the last handle does not stop an entry: a playing entry whose
/// signal, once told, still has time left keeps its slot, keeps playing, and
/// is mixed into the output.
pub proof fn lemma_abandoned_keeps_playing<S: Signal>(
    t: Tick<S::V, S::Frame>,
    interval: u64,
    i: int,
)
    requires
        0 <= i < t.live.len(),
        !t.live[i].held,
        t.live[i].signal.state == StopState::Playing,
        S::remaining_of(S::abandoned(t.live[i].signal.inner)) > 0,
    ensures
        visit::<S>(t, interval, i).live.len() == t.live.len(),
        visit::<S>(t, interval, i).live[i].id == t.live[i].id,
        visit::<S>(t, interval, i).live[i].signal.state == StopState::Playing,
        visit::<S>(t, interval, i).out == mixed(
            t.out,
            render::<S>(Stop::<S>::abandoned(t.live[i].signal), interval, t.out.len(), t.buffer).1,
        ),
{
    lemma_render_keeps_state::<S>(
        Stop::<S>::abandoned(t.live[i].signal),
        interval,
        t.out.len(),
        t.buffer,
    );
}

} // verus!
