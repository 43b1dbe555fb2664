//! The deadline timer: one hardware one-shot alarm shared by every timed
//! wait.
//!
//! Each suspended `sleep_until` merges its target into the single pending
//! slot via minimum, so concurrent sleeps coalesce to the earliest wakeup.
//! Before idling, the runner takes the pending deadline and arms the alarm
//! relative to "now", so a deadline already in the past still fires promptly.

use vstd::prelude::*;

use crate::time::{Duration, Instant};

verus! {

/// Merging one `sleep_until` target into the pending slot keeps the minimum.
pub open spec fn merged(pending: Option<u64>, d: u64) -> Option<u64> {
    match pending {
        None => Some(d),
        Some(p) => Some(if d <= p { d } else { p }),
    }
}

/// The pending slot after a whole sequence of targets has been merged in.
pub open spec fn merged_all(pending: Option<u64>, ds: Seq<u64>) -> Option<u64>
    decreases ds.len(),
{
    if ds.len() == 0 {
        pending
    } else {
        merged_all(merged(pending, ds[0]), ds.skip(1))
    }
}

/// The minimum of a non-empty sequence of deadlines.
pub open spec fn seq_min(ds: Seq<u64>) -> u64
    decreases ds.len(),
{
    if ds.len() <= 1 {
        ds[0]
    } else {
        let rest = seq_min(ds.skip(1));
        if ds[0] <= rest {
            ds[0]
        } else {
            rest
        }
    }
}

proof fn lemma_merged_all_from_some(p: u64, ds: Seq<u64>)
    ensures
        ds.len() == 0 ==> merged_all(Some(p), ds) == Some(p),
        ds.len() > 0 ==> merged_all(Some(p), ds) == Some(
            if p <= seq_min(ds) {
                p
            } else {
                seq_min(ds)
            },
        ),
    decreases ds.len(),
{
    if ds.len() > 0 {
        lemma_merged_all_from_some(if ds[0] <= p { ds[0] } else { p }, ds.skip(1));
    }
}

/// `seq_min` really is the minimum: no deadline in the sequence is earlier,
/// and it is one of them.
pub proof fn lemma_seq_min_is_minimum(ds: Seq<u64>)
    requires
        ds.len() > 0,
    ensures
        forall|i: int| 0 <= i < ds.len() ==> seq_min(ds) <= ds[i],
        ds.contains(seq_min(ds)),
    decreases ds.len(),
{
    if ds.len() > 1 {
        lemma_seq_min_is_minimum(ds.skip(1));
        assert forall|i: int| 0 <= i < ds.len() implies seq_min(ds) <= ds[i] by {
            if i > 0 {
                assert(ds.skip(1)[i - 1] == ds[i]);
            }
        }
        if seq_min(ds) != ds[0] {
            let j = choose|j: int|
                0 <= j < ds.skip(1).len() && ds.skip(1)[j] == seq_min(ds.skip(1));
            assert(ds[j + 1] == seq_min(ds));
        }
    }
}

/// Law: for any set of outstanding `sleep_until` deadlines, merging them all
/// into an empty pending slot leaves exactly their minimum pending, so the
/// hardware alarm is always armed at the earliest outstanding target.
pub proof fn lemma_pending_is_minimum(ds: Seq<u64>)
    requires
        ds.len() > 0,
    ensures
        merged_all(None, ds) == Some(seq_min(ds)),
    decreases ds.len(),
{
    lemma_merged_all_from_some(ds[0], ds.skip(1));
}

/// The single pending-wakeup slot feeding the hardware one-shot alarm.
///
/// It owns the earliest not-yet-armed `sleep_until` target; sleeps merge
/// their targets in, and the runner drains it when arming the alarm.
pub struct DeadlineTimer {
    pending: Option<Instant>,
}

impl DeadlineTimer {
    /// The pending deadline, as a microsecond count.
    pub closed spec fn pending_deadline(self) -> Option<u64> {
        match self.pending {
            None => None,
            Some(i) => Some(i.micros),
        }
    }

    /// A fresh timer with nothing pending.
    pub fn new() -> (r: DeadlineTimer)
        ensures
            r.pending_deadline() is None,
    {
        DeadlineTimer { pending: None }
    }

    /// Merge a suspended sleep's target into the pending slot via minimum,
    /// so an earlier outstanding wakeup is never overwritten.
    pub fn note_deadline(&mut self, d: Instant)
        ensures
            final(self).pending_deadline() == merged(old(self).pending_deadline(), d.micros),
    {
        self.pending = match self.pending {
            None => Some(d),
            Some(p) => Some(p.earliest(d)),
        };
    }

    /// Drain the pending slot; the caller arms the hardware alarm with the
    /// returned instant. Clearing before arming means the alarm interrupt
    /// handler has nothing left to do but wake the processor.
    pub fn take_pending(&mut self) -> (r: Option<Instant>)
        ensures
            final(self).pending_deadline() is None,
            r is None <==> old(self).pending_deadline() is None,
            r matches Some(i) ==> old(self).pending_deadline() == Some(i.micros),
    {
        let r = self.pending;
        self.pending = None;
        r
    }

    /// The arming step run just before the processor idles: drain the slot
    /// and, if a deadline was pending, say when the alarm must fire. A
    /// deadline already in the past is re-based to "now" so the alarm still
    /// fires promptly instead of hanging.
    pub fn wind(&mut self, now: Instant) -> (r: Option<Instant>)
        ensures
            final(self).pending_deadline() is None,
            r is None <==> old(self).pending_deadline() is None,
            r matches Some(fire) ==> {
                &&& old(self).pending_deadline() matches Some(d)
                &&& fire.micros == if d >= now.micros {
                    d
                } else {
                    now.micros
                }
            },
    {
        match self.take_pending() {
            None => None,
            Some(target) => {
                if now.is_before(target) {
                    Some(target)
                } else {
                    Some(now)
                }
            },
        }
    }
}

/// How one poll of a suspension primitive resolved.
#[derive(Clone, Copy, PartialEq, Eq, Structural, Debug)]
pub enum PollStatus {
    Ready,
    Pending,
}

/// One poll of `sleep_until(target)`: complete immediately once the target
/// is due — `now` at or past it; otherwise merge the target into the
/// pending slot and stay suspended, relying on the alarm to wake the
/// processor. A completed poll leaves the pending slot untouched.
pub fn poll_sleep(target: Instant, now: Instant, timer: &mut DeadlineTimer) -> (r: PollStatus)
    ensures
        r is Ready <==> target.micros <= now.micros,
        r is Ready ==> final(timer).pending_deadline() == old(timer).pending_deadline(),
        r is Pending ==> final(timer).pending_deadline() == merged(
            old(timer).pending_deadline(),
            target.micros,
        ),
{
    if !now.is_before(target) {
        PollStatus::Ready
    } else {
        timer.note_deadline(target);
        PollStatus::Pending
    }
}

/// The wakeup target of `sleep_ms(ms)` issued at `now`: `now` plus `ms`
/// milliseconds, saturating at the counter's maximum.
pub fn sleep_target(now: Instant, ms: u64) -> (r: Instant)
    ensures
        ms <= u64::MAX / 1000 && now.micros + ms * 1000 <= u64::MAX ==> r.micros == now.micros + ms
            * 1000,
        ms <= u64::MAX / 1000 && now.micros + ms * 1000 > u64::MAX ==> r.micros == u64::MAX,
        ms > u64::MAX / 1000 ==> r.micros == u64::MAX,
        r.micros >= now.micros,
{
    now.saturating_add(Duration::from_millis(ms))
}

} // verus!
