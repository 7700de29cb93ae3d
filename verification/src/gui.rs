//! The event ring buffer behind the desk's event listing.

use vstd::prelude::*;
use std::collections::VecDeque;

verus! {

broadcast use vstd::std_specs::vecdeque::group_vec_dequeue_axioms;

/// The buffer after recording `x` with capacity `cap`: the oldest event
/// leaves when the buffer holds exactly `cap` events.
pub open spec fn ring_record<E>(v: Seq<E>, cap: nat, x: E) -> Seq<E> {
    if v.len() == cap && v.len() > 0 {
        v.drop_first().push(x)
    } else {
        v.push(x)
    }
}

/// The buffer after recording each of `xs`, in order, from empty.
pub open spec fn ring_fill<E>(cap: nat, xs: Seq<E>) -> Seq<E>
    decreases xs.len(),
{
    if xs.len() == 0 {
        Seq::empty()
    } else {
        ring_record(ring_fill(cap, xs.drop_last()), cap, xs.last())
    }
}

/// Shared state of the desk's event listing: recent events, oldest first.
pub struct AppState<E> {
    events: VecDeque<E>,
    capacity: usize,
}

impl<E> AppState<E> {
    /// The stored events, oldest first.
    pub closed spec fn events_view(&self) -> Seq<E> {
        self.events@
    }

    pub closed spec fn capacity_view(&self) -> nat {
        self.capacity as nat
    }

    /// An empty buffer with the given capacity.
    pub fn new(capacity: usize) -> (s: Self)
        ensures
            s.events_view().len() == 0,
            s.capacity_view() == capacity,
    {
        AppState { events: VecDeque::new(), capacity }
    }

    /// Records an event, dropping the oldest when the buffer is full.
    pub fn record_event(&mut self, event: E)
        ensures
            final(self).events_view() == ring_record(old(self).events_view(), old(self).capacity_view(), event),
            final(self).capacity_view() == old(self).capacity_view(),
    {
        if self.events.len() == self.capacity && self.events.len() > 0 {
            self.events.pop_front();
        }
        self.events.push_back(event);
        proof {
            let o = old(self).events@;
            if o.len() == self.capacity && o.len() > 0 {
                assert(o.subrange(1, o.len() as int) =~= o.drop_first());
            }
        }
    }

    /// The stored events, oldest first.
    pub fn all_events(&self) -> (v: &VecDeque<E>)
        ensures
            v@ == self.events_view(),
    {
        &self.events
    }
}

impl<E> Default for AppState<E> {
    fn default() -> (s: Self)
        ensures
            s.events_view().len() == 0,
            s.capacity_view() == 100,
    {
        AppState::new(100)
    }
}

/// A buffer of capacity `cap > 0` holds the last `min(n, cap)` of the `n`
/// events recorded into it, oldest first.
pub proof fn law_ring_buffer_keeps_latest<E>(cap: nat, xs: Seq<E>)
    requires
        cap > 0,
    ensures
        ring_fill(cap, xs) == xs.subrange(if xs.len() > cap { xs.len() - cap } else { 0 }, xs.len() as int),
    decreases xs.len(),
{
    if xs.len() > 0 {
        let p = xs.drop_last();
        law_ring_buffer_keeps_latest(cap, p);
        let f = ring_fill(cap, p);
        let sp: int = if p.len() > cap { p.len() - cap } else { 0 };
        assert(f == p.subrange(sp, p.len() as int));
        if f.len() == cap && f.len() > 0 {
            assert(f.drop_first().push(xs.last()) =~= xs.subrange(xs.len() - cap, xs.len() as int));
        } else {
            assert(f.push(xs.last()) =~= xs.subrange(if xs.len() > cap { xs.len() - cap } else { 0 }, xs.len() as int));
        }
    } else {
        assert(xs.subrange(0, 0) =~= Seq::<E>::empty());
    }
}

} // verus!
