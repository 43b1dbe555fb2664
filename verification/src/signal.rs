//! The single-slot broadcast mailbox: a latest-value, overwrite-on-write
//! channel from a producer task to a consumer task.
//!
//! A write unconditionally replaces any unread value and never blocks; a
//! read drains the slot. The slot therefore holds zero or one values at all
//! times, and a burst of writes collapses to the newest.

use vstd::prelude::*;

use crate::sleep::PollStatus;

verus! {

/// The slot after one write: the new value, whatever was there before.
pub open spec fn after_signal<T>(slot: Option<T>, v: T) -> Option<T> {
    Some(v)
}

/// The slot after a whole sequence of writes, oldest first.
pub open spec fn after_signal_all<T>(slot: Option<T>, vs: Seq<T>) -> Option<T>
    decreases vs.len(),
{
    if vs.len() == 0 {
        slot
    } else {
        after_signal_all(after_signal(slot, vs[0]), vs.skip(1))
    }
}

/// One read: the slot drains, and the reader sees what it held.
pub open spec fn take_step<T>(slot: Option<T>) -> (Option<T>, Option<T>) {
    (None, slot)
}

/// Law: any number of writes followed by one read yields only the last
/// written value, exactly once — an immediate second read yields nothing.
pub proof fn lemma_single_slot<T>(slot: Option<T>, vs: Seq<T>)
    requires
        vs.len() > 0,
    ensures
        take_step(after_signal_all(slot, vs)).1 == Some(vs.last()),
        take_step(take_step(after_signal_all(slot, vs)).0).1 == Option::<T>::None,
    decreases vs.len(),
{
    if vs.len() > 1 {
        lemma_single_slot(after_signal(slot, vs[0]), vs.skip(1));
        assert(vs.skip(1).last() == vs.last());
    } else {
        assert(vs.skip(1).len() == 0);
        assert(after_signal_all(slot, vs) == after_signal_all(after_signal(slot, vs[0]), vs.skip(1)));
        assert(after_signal_all(slot, vs) == Some(vs[0]));
    }
}

/// The mailbox itself: one slot, overwritten by `signal`, drained by
/// `try_take` or by a completed `wait`.
pub struct Signal<T> {
    slot: Option<T>,
}

impl<T> Signal<T> {
    /// The unread value, if any.
    pub closed spec fn held(self) -> Option<T> {
        self.slot
    }

    /// An empty mailbox.
    pub fn new() -> (r: Signal<T>)
        ensures
            r.held() is None,
    {
        Signal { slot: None }
    }

    /// Overwrite the held value and mark it unread; never blocks, never
    /// fails, never queues.
    pub fn signal(&mut self, v: T)
        ensures
            final(self).held() == after_signal(old(self).held(), v),
    {
        self.slot = Some(v);
    }

    /// Return and clear the slot if a value is unread, else nothing.
    pub fn try_take(&mut self) -> (r: Option<T>)
        ensures
            r == take_step(old(self).held()).1,
            final(self).held() == take_step(old(self).held()).0,
    {
        let r = self.slot.take();
        r
    }

    /// One poll of `wait`: ready with the value once something has been
    /// written since the slot was last read, else still pending.
    pub fn poll_wait(&mut self) -> (r: (PollStatus, Option<T>))
        ensures
            r.1 == take_step(old(self).held()).1,
            final(self).held() == take_step(old(self).held()).0,
            r.0 is Ready <==> old(self).held() is Some,
    {
        match self.try_take() {
            Some(v) => (PollStatus::Ready, Some(v)),
            None => (PollStatus::Pending, None),
        }
    }
}

} // verus!
