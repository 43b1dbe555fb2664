//! Click classification on top of the press latch.
//!
//! Two classifiers exist across device variants: one composes a down edge
//! and the following up edge into a click, rejecting pairs faster than a
//! minimal human press; the other races "button released" against a timeout
//! to tell a short press from a long one. Giving up is never an external
//! cancellation — both classifiers simply loop back to waiting.

use vstd::prelude::*;

use crate::input::Keypress;

verus! {

/// Where the down/up click classifier stands.
#[derive(Clone, Copy, PartialEq, Eq, Structural, Debug)]
pub enum ClickPhase {
    /// Waiting for the button to go down.
    Waiting,
    /// The button went down at `at_ms`; waiting for it to come up.
    Pressed { at_ms: u64 },
}

/// One step of the down/up classifier: the next phase and whether a click
/// completed. An up edge while waiting is stray; a second down edge
/// restarts the wait; a down–up pair faster than `min_press_ms` is noise
/// and is dropped.
pub open spec fn click_step(phase: ClickPhase, k: Keypress, now_ms: u64, min_press_ms: u64) -> (
    ClickPhase,
    bool,
) {
    match phase {
        ClickPhase::Waiting => match k {
            Keypress::Up => (ClickPhase::Waiting, false),
            Keypress::Down => (ClickPhase::Pressed { at_ms: now_ms }, false),
        },
        ClickPhase::Pressed { at_ms } => match k {
            Keypress::Down => (ClickPhase::Waiting, false),
            Keypress::Up => (ClickPhase::Waiting, now_ms - at_ms >= min_press_ms),
        },
    }
}

/// The down/up click classifier built over `wait_for_press`.
pub struct ClickTracker {
    pub min_press_ms: u64,
    pub phase: ClickPhase,
}

impl ClickTracker {
    /// A classifier waiting for its first down edge; a down–up pair
    /// shorter than `min_press_ms` will be treated as noise.
    pub fn new(min_press_ms: u64) -> (r: ClickTracker)
        ensures
            r.min_press_ms == min_press_ms,
            r.phase == ClickPhase::Waiting,
    {
        ClickTracker { min_press_ms, phase: ClickPhase::Waiting }
    }

    /// Feed one latched edge observed at `now_ms`; true when a meaningful
    /// down-then-up click has just completed.
    pub fn observe(&mut self, k: Keypress, now_ms: u64) -> (clicked: bool)
        requires
            old(self).phase matches ClickPhase::Pressed { at_ms } ==> at_ms <= now_ms,
        ensures
            final(self).min_press_ms == old(self).min_press_ms,
            final(self).phase == click_step(old(self).phase, k, now_ms, old(self).min_press_ms).0,
            clicked == click_step(old(self).phase, k, now_ms, old(self).min_press_ms).1,
    {
        match self.phase {
            ClickPhase::Waiting => {
                match k {
                    Keypress::Up => false,
                    Keypress::Down => {
                        self.phase = ClickPhase::Pressed { at_ms: now_ms };
                        false
                    },
                }
            },
            ClickPhase::Pressed { at_ms } => {
                self.phase = ClickPhase::Waiting;
                match k {
                    Keypress::Down => false,
                    Keypress::Up => now_ms - at_ms >= self.min_press_ms,
                }
            },
        }
    }
}

/// How a bounded wait resolved: the awaited event arrived, or the deadline
/// ran out first.
#[derive(Clone, Copy, PartialEq, Eq, Structural, Debug)]
pub enum RaceOutcome {
    Release,
    Timeout,
}

/// Race the button's release against a timeout: the release wins iff it
/// comes strictly before the timeout would fire; the loser simply becomes
/// irrelevant, no cancellation is needed.
pub fn resolve_race(release_after_ms: u64, timeout_ms: u64) -> (r: RaceOutcome)
    ensures
        r is Release <==> release_after_ms < timeout_ms,
{
    if release_after_ms < timeout_ms {
        RaceOutcome::Release
    } else {
        RaceOutcome::Timeout
    }
}

/// A press classified by how long it was held.
#[derive(Clone, Copy, PartialEq, Eq, Structural, Debug)]
pub enum PressKind {
    Short,
    Long,
}

/// Classify a press: short iff it was released before the timeout ran out.
pub fn classify_press(held_ms: u64, timeout_ms: u64) -> (k: PressKind)
    ensures
        k is Short <==> held_ms < timeout_ms,
{
    match resolve_race(held_ms, timeout_ms) {
        RaceOutcome::Release => PressKind::Short,
        RaceOutcome::Timeout => PressKind::Long,
    }
}

/// The keycode the clicker device emits for each kind of press: space for
/// a short press, enter for a long one.
pub fn click_keycode(k: PressKind) -> (r: u8)
    ensures
        k is Short ==> r == 44,
        k is Long ==> r == 40,
{
    match k {
        PressKind::Short => 44,
        PressKind::Long => 40,
    }
}

} // verus!
