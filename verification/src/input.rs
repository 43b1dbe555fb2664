//! The edge-triggered input latch: a single buffered press/release event.
//!
//! The button interrupt overwrites the one-slot latch on each qualifying
//! edge, so a burst of edges coalesces to the latest; the next poll of
//! `wait_for_press` reads and clears it. Debouncing downstream absorbs the
//! loss of coalesced edges.

use vstd::prelude::*;

use crate::sleep::PollStatus;

verus! {

/// The result of a keypress: the button went down (pressed) or up (released).
#[derive(Clone, Copy, PartialEq, Eq, Structural, Debug)]
pub enum Keypress {
    Up,
    Down,
}

/// What the button interrupt latches for a given pair of edge flags: a
/// falling edge means the button went down, a rising edge that it went up,
/// and the falling edge wins when both are raised at once.
pub fn edge_event(edge_low: bool, edge_high: bool) -> (r: Option<Keypress>)
    ensures
        edge_low ==> r == Some(Keypress::Down),
        !edge_low && edge_high ==> r == Some(Keypress::Up),
        !edge_low && !edge_high ==> r is None,
{
    if edge_low {
        Some(Keypress::Down)
    } else if edge_high {
        Some(Keypress::Up)
    } else {
        None
    }
}

/// The single-slot latch written by the button interrupt and drained by
/// `wait_for_press`. At most one event is ever retained.
pub struct PressLatch {
    slot: Option<Keypress>,
}

impl PressLatch {
    /// The latched event, if one is waiting to be consumed.
    pub closed spec fn latched(self) -> Option<Keypress> {
        self.slot
    }

    /// An empty latch, as at boot.
    pub fn new() -> (r: PressLatch)
        ensures
            r.latched() is None,
    {
        PressLatch { slot: None }
    }

    /// The interrupt path: overwrite the slot with the newest edge,
    /// discarding any unconsumed older one.
    pub fn latch(&mut self, k: Keypress)
        ensures
            final(self).latched() == Some(k),
    {
        self.slot = Some(k);
    }

    /// One poll of `wait_for_press`: atomically read and clear the slot,
    /// completing with the event if one was present.
    pub fn take(&mut self) -> (r: Option<Keypress>)
        ensures
            r == old(self).latched(),
            final(self).latched() is None,
    {
        let r = self.slot;
        self.slot = None;
        r
    }

    /// The same poll, phrased as a suspension: ready with the event, or
    /// still pending with nothing consumed.
    pub fn poll_press(&mut self) -> (r: (PollStatus, Option<Keypress>))
        ensures
            r.1 == old(self).latched(),
            final(self).latched() is None,
            r.0 is Ready <==> old(self).latched() is Some,
    {
        match self.take() {
            Some(k) => (PollStatus::Ready, Some(k)),
            None => (PollStatus::Pending, None),
        }
    }
}

} // verus!
