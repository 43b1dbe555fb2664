//! Debouncing: filtering spurious or re-triggered button edges by enforcing
//! a minimum spacing between accepted events.
//!
//! The tracker remembers the last accepted press; a new edge closer than the
//! threshold is discarded and leaves no trace. Starting the memory at boot
//! (time zero) also absorbs the one spurious interrupt many GPIO controllers
//! raise when the interrupt is first enabled.

use vstd::prelude::*;

verus! {

/// The accepted subsequence of a stream of press times: an edge is kept iff
/// it falls at least `thr` after the previously accepted edge (`last` before
/// any has been accepted).
pub open spec fn debounced(times: Seq<u64>, last: u64, thr: u64) -> Seq<u64>
    decreases times.len(),
{
    if times.len() == 0 {
        Seq::empty()
    } else if times[0] >= last + thr {
        seq![times[0]] + debounced(times.skip(1), times[0], thr)
    } else {
        debounced(times.skip(1), last, thr)
    }
}

/// Law: every edge the debouncer surfaces was one of the offered edges —
/// it never invents events.
pub proof fn lemma_debounced_are_presses(times: Seq<u64>, last: u64, thr: u64)
    ensures
        forall|i: int|
            0 <= i < debounced(times, last, thr).len() ==> times.contains(
                #[trigger] debounced(times, last, thr)[i],
            ),
    decreases times.len(),
{
    if times.len() > 0 {
        if times[0] >= last + thr {
            lemma_debounced_are_presses(times.skip(1), times[0], thr);
        } else {
            lemma_debounced_are_presses(times.skip(1), last, thr);
        }
        assert forall|i: int| 0 <= i < debounced(times, last, thr).len() implies times.contains(
            #[trigger] debounced(times, last, thr)[i],
        ) by {
            let d = debounced(times, last, thr);
            if times[0] >= last + thr {
                if i > 0 {
                    let dtail = debounced(times.skip(1), times[0], thr);
                    assert(d[i] == dtail[i - 1]);
                    assert(times.skip(1).contains(dtail[i - 1]));
                    let j = choose|j: int|
                        0 <= j < times.skip(1).len() && times.skip(1)[j] == dtail[i - 1];
                    assert(times[j + 1] == dtail[i - 1]);
                }
            } else {
                let dtail = debounced(times.skip(1), last, thr);
                assert(times.skip(1).contains(dtail[i]));
                let j = choose|j: int| 0 <= j < times.skip(1).len() && times.skip(1)[j] == dtail[i];
                assert(times[j + 1] == dtail[i]);
            }
        }
    }
}

/// Law: accepted edges are spaced: each surfaced edge falls at least the
/// threshold after the previously accepted one, and the first surfaced edge
/// at least the threshold after the initial memory.
pub proof fn lemma_debounced_spacing(times: Seq<u64>, last: u64, thr: u64)
    ensures
        forall|i: int|
            0 <= i < debounced(times, last, thr).len() ==> #[trigger] debounced(
                times,
                last,
                thr,
            )[i] >= last + thr,
        forall|i: int|
            0 < i < debounced(times, last, thr).len() ==> #[trigger] debounced(
                times,
                last,
                thr,
            )[i] >= debounced(times, last, thr)[i - 1] + thr,
    decreases times.len(),
{
    if times.len() > 0 {
        let d = debounced(times, last, thr);
        if times[0] >= last + thr {
            lemma_debounced_spacing(times.skip(1), times[0], thr);
            let dtail = debounced(times.skip(1), times[0], thr);
            assert(d == seq![times[0]] + dtail);
            assert forall|i: int| 0 <= i < d.len() implies #[trigger] d[i] >= last + thr by {
                if i > 0 {
                    assert(d[i] == dtail[i - 1]);
                }
            }
            assert forall|i: int| 0 < i < d.len() implies #[trigger] d[i] >= d[i - 1] + thr by {
                assert(d[i] == dtail[i - 1]);
                if i > 1 {
                    assert(d[i - 1] == dtail[i - 2]);
                    assert(dtail[i - 1] >= dtail[i - 2] + thr);
                }
            }
        } else {
            lemma_debounced_spacing(times.skip(1), last, thr);
            let dtail = debounced(times.skip(1), last, thr);
            assert(d == dtail);
            assert forall|i: int| 0 <= i < d.len() implies #[trigger] d[i] >= last + thr by {
                assert(d[i] == dtail[i]);
                assert(dtail[i] >= last + thr);
            }
            assert forall|i: int| 0 < i < d.len() implies #[trigger] d[i] >= d[i - 1] + thr by {
                assert(d[i] == dtail[i]);
                assert(d[i - 1] == dtail[i - 1]);
                assert(dtail[i] >= dtail[i - 1] + thr);
            }
        }
    }
}

/// The debounce state: a threshold and the time of the last accepted press.
pub struct Debouncer {
    pub threshold_ms: u64,
    pub last_accepted_ms: u64,
}

impl Debouncer {
    /// Whether a press at `now_ms` would be accepted.
    pub open spec fn accepts(self, now_ms: u64) -> bool {
        now_ms >= self.last_accepted_ms + self.threshold_ms
    }

    /// A fresh debouncer: the last accepted press reads as boot time, so
    /// presses within the first threshold window — including the spurious
    /// interrupt-enable edge — are swallowed.
    pub fn new(threshold_ms: u64) -> (r: Debouncer)
        ensures
            r.threshold_ms == threshold_ms,
            r.last_accepted_ms == 0,
    {
        Debouncer { threshold_ms, last_accepted_ms: 0 }
    }

    /// Offer one press: it is accepted iff it falls at least the threshold
    /// after the last accepted press; only an accepted press updates the
    /// memory.
    pub fn offer(&mut self, now_ms: u64) -> (accepted: bool)
        requires
            old(self).last_accepted_ms <= now_ms,
        ensures
            accepted == old(self).accepts(now_ms),
            final(self).threshold_ms == old(self).threshold_ms,
            accepted ==> final(self).last_accepted_ms == now_ms,
            !accepted ==> final(self).last_accepted_ms == old(self).last_accepted_ms,
    {
        if now_ms - self.last_accepted_ms < self.threshold_ms {
            false
        } else {
            self.last_accepted_ms = now_ms;
            true
        }
    }

    /// Run a whole nondecreasing stream of press times through the
    /// debouncer; exactly the accepted subsequence comes out.
    pub fn offer_all(&mut self, times: &Vec<u64>) -> (accepted: Vec<u64>)
        requires
            forall|i: int, j: int| 0 <= i <= j < times@.len() ==> times@[i] <= times@[j],
            forall|i: int| 0 <= i < times@.len() ==> old(self).last_accepted_ms <= #[trigger] times@[i],
        ensures
            accepted@ == debounced(times@, old(self).last_accepted_ms, old(self).threshold_ms),
            final(self).threshold_ms == old(self).threshold_ms,
    {
        let mut out: Vec<u64> = Vec::new();
        let mut i: usize = 0;
        proof {
            assert(times@.skip(0) =~= times@);
            assert(out@ + debounced(times@, self.last_accepted_ms, self.threshold_ms) =~= debounced(
                times@,
                self.last_accepted_ms,
                self.threshold_ms,
            ));
        }
        while i < times.len()
            invariant
                i <= times@.len(),
                self.threshold_ms == old(self).threshold_ms,
                forall|k: int, j: int| 0 <= k <= j < times@.len() ==> times@[k] <= times@[j],
                forall|k: int| i <= k < times@.len() ==> self.last_accepted_ms <= #[trigger] times@[k],
                debounced(times@, old(self).last_accepted_ms, old(self).threshold_ms) == out@
                    + debounced(times@.skip(i as int), self.last_accepted_ms, self.threshold_ms),
            decreases times@.len() - i,
        {
            let ghost pre_last = self.last_accepted_ms;
            let ghost rest = times@.skip(i as int);
            let t = times[i];
            let took = self.offer(t);
            proof {
                assert(rest[0] == times@[i as int]);
                assert(rest.skip(1) =~= times@.skip(i + 1));
                if took {
                    assert(debounced(rest, pre_last, self.threshold_ms) == seq![t] + debounced(
                        times@.skip(i + 1),
                        t,
                        self.threshold_ms,
                    ));
                } else {
                    assert(debounced(rest, pre_last, self.threshold_ms) == debounced(
                        times@.skip(i + 1),
                        pre_last,
                        self.threshold_ms,
                    ));
                }
            }
            if took {
                out.push(t);
            }
            i = i + 1;
            proof {
                assert(debounced(times@, old(self).last_accepted_ms, old(self).threshold_ms)
                    == out@ + debounced(
                    times@.skip(i as int),
                    self.last_accepted_ms,
                    self.threshold_ms,
                ));
            }
        }
        proof {
            assert(times@.skip(times@.len() as int).len() == 0);
            assert(out@ + Seq::<u64>::empty() =~= out@);
        }
        out
    }
}

} // verus!
