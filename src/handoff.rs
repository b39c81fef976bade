//! The hand-off collection: items inserted on the write side wait in a
//! pending list until the read side merges them with `update`.
use vstd::prelude::*;

verus! {

broadcast use vstd::seq_lib::group_seq_properties;

/// `s` without its item `i`, the last item taking its place.
pub open spec fn swap_removed<A>(s: Seq<A>, i: int) -> Seq<A> {
    s.update(i, s.last()).drop_last()
}

/// What a `Handoff` holds: the items visible to the read side, and those inserted
/// since the last `update`.
pub struct HandoffView<T> {
    pub live: Seq<T>,
    pub pending: Seq<T>,
}

impl<T> HandoffView<T> {
    /// After `insert(x)` on the write side.
    pub open spec fn inserted(self, x: T) -> Self {
        HandoffView { live: self.live, pending: self.pending.push(x) }
    }

    /// After `update` on the read side.
    pub open spec fn updated(self) -> Self {
        HandoffView { live: self.live + self.pending, pending: Seq::empty() }
    }

    /// After `remove(i)`: the last item takes slot `i`.
    pub open spec fn removed(self, i: int) -> Self {
        HandoffView { live: swap_removed(self.live, i), pending: self.pending }
    }
}

/// The views of the items of `s`, in order.
pub open spec fn views<A: View>(s: Seq<A>) -> Seq<A::V> {
    s.map_values(|x: A| x@)
}

/// Changing one item changes one view.
pub broadcast proof fn lemma_views_update<A: View>(s: Seq<A>, i: int, x: A)
    requires
        0 <= i < s.len(),
    ensures
        #[trigger] views(s.update(i, x)) == views(s).update(i, x@),
{
    assert(views(s.update(i, x)) =~= views(s).update(i, x@));
}

/// An unordered collection split into a write side (`insert`) and a read side
/// (`len`, indexing, `remove`), reconciled by `update`.
pub struct Handoff<T> {
    live: Vec<T>,
    pending: Vec<T>,
}

impl<T: View> View for Handoff<T> {
    type V = HandoffView<T::V>;

    closed spec fn view(&self) -> HandoffView<T::V> {
        HandoffView { live: views(self.live@), pending: views(self.pending@) }
    }
}

impl<T: View> Handoff<T> {
    /// An empty collection.
    pub fn new() -> (r: Self)
        ensures
            r@.live == Seq::<T::V>::empty(),
            r@.pending == Seq::<T::V>::empty(),
    {
        let r = Handoff { live: Vec::new(), pending: Vec::new() };
        proof {
            assert(r@.live =~= Seq::<T::V>::empty());
            assert(r@.pending =~= Seq::<T::V>::empty());
        }
        r
    }

    /// Write side: adds `x`, invisible to the read side until the next `update`.
    pub fn insert(&mut self, x: T)
        ensures
            final(self)@ == old(self)@.inserted(x@),
    {
        self.pending.push(x);
        proof {
            assert(self@.pending =~= old(self)@.inserted(x@).pending);
        }
    }

    /// Read side: makes every item inserted since the last `update` visible.
    pub fn update(&mut self)
        ensures
            final(self)@ == old(self)@.updated(),
    {
        self.live.append(&mut self.pending);
        proof {
            assert(self@.live =~= old(self)@.updated().live);
            assert(self@.pending =~= old(self)@.updated().pending);
        }
    }

    /// Read side: the number of visible items.
    pub fn len(&self) -> (r: usize)
        ensures
            r == self@.live.len(),
    {
        self.live.len()
    }

    /// Read side: the visible item in slot `i`.
    pub fn get(&self, i: usize) -> (r: &T)
        requires
            i < self@.live.len(),
        ensures
            r@ == self@.live[i as int],
    {
        &self.live[i]
    }

    /// Read side: the visible item in slot `i`, to change in place.
    pub fn get_mut(&mut self, i: usize) -> (r: &mut T)
        requires
            i < old(self)@.live.len(),
        ensures
            r@ == old(self)@.live[i as int],
            final(self)@ == (HandoffView {
                live: old(self)@.live.update(i as int, final(r)@),
                pending: old(self)@.pending,
            }),
    {
        broadcast use lemma_views_update;

        &mut self.live[i]
    }

    /// Write side: the number of items waiting for the next `update`.
    pub fn pending_len(&self) -> (r: usize)
        ensures
            r == self@.pending.len(),
    {
        self.pending.len()
    }

    /// Write side: the waiting item in place `i`, to change in place.
    pub fn pending_mut(&mut self, i: usize) -> (r: &mut T)
        requires
            i < old(self)@.pending.len(),
        ensures
            r@ == old(self)@.pending[i as int],
            final(self)@ == (HandoffView {
                live: old(self)@.live,
                pending: old(self)@.pending.update(i as int, final(r)@),
            }),
    {
        broadcast use lemma_views_update;

        &mut self.pending[i]
    }

    /// Read side: takes out the visible item in slot `i`; the last item moves
    /// into that slot.
    pub fn remove(&mut self, i: usize) -> (r: T)
        requires
            i < old(self)@.live.len(),
        ensures
            r@ == old(self)@.live[i as int],
            final(self)@ == old(self)@.removed(i as int),
    {
        let r = self.live.swap_remove(i);
        proof {
            assert(self@.live =~= old(self)@.removed(i as int).live);
        }
        r
    }
}

/// An item inserted on the write side stays out of the read side until an
/// `update`, and is then visible exactly once.
pub proof fn lemma_insert_visibility<T>(s: HandoffView<T>, x: T)
    requires
        !s.live.contains(x),
        !s.pending.contains(x),
    ensures
        !s.inserted(x).live.contains(x),
        s.inserted(x).updated().live.to_multiset().count(x) == 1,
{
    broadcast use vstd::seq_lib::group_to_multiset_ensures;

    let merged = s.live + s.pending.push(x);
    vstd::seq_lib::lemma_multiset_commutative(s.live, s.pending.push(x));
    assert(s.pending.push(x).to_multiset().count(x) == 1);
}

/// Removing an item and then inserting and merging another leaves the read
/// side as large as before: the freed slot is taken again.
pub proof fn lemma_slot_reuse<T>(s: HandoffView<T>, i: int, x: T)
    requires
        0 <= i < s.live.len(),
    ensures
        s.removed(i).inserted(x).updated().live.len() == s.live.len() + s.pending.len(),
{
}

} // verus!
