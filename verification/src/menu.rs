//! The link-selection menu: the state machine behind choosing the next
//! passage of the branching story.
//!
//! The options are typed as a column and a caret marks the highlighted
//! one. Each short press moves the highlight one option down, wrapping to
//! the first; a long press (the release timed out) settles the choice.
//! The cursor itself is a keyboard: moving the highlight is planned as a
//! count of up- or down-arrow keystrokes.

use vstd::prelude::*;

use crate::click::RaceOutcome;

verus! {

/// The up-arrow HID keycode.
pub const KEY_UP: u8 = 82;

/// The down-arrow HID keycode.
pub const KEY_DOWN: u8 = 81;

/// Where the selection stands: how many options there are, which one the
/// next press would highlight, and which one the caret sits on now.
#[derive(Clone, Copy, PartialEq, Eq, Structural, Debug)]
pub struct MenuState {
    pub n_links: usize,
    pub target: usize,
    pub current: usize,
}

impl MenuState {
    /// Both cursors stay among the options.
    pub open spec fn wf(self) -> bool {
        &&& self.n_links >= 1
        &&& self.target < self.n_links
        &&& self.current < self.n_links
    }

    /// A fresh menu of `n_links` options, caret on the first.
    pub fn new(n_links: usize) -> (r: MenuState)
        requires
            n_links >= 1,
        ensures
            r.n_links == n_links,
            r.target == 0,
            r.current == 0,
            r.wf(),
    {
        MenuState { n_links, target: 0, current: 0 }
    }

    /// A short press: the highlight moves one option down, wrapping past
    /// the last back to the first.
    pub fn advance(&mut self)
        requires
            old(self).wf(),
        ensures
            final(self).n_links == old(self).n_links,
            final(self).current == old(self).current,
            final(self).target == (old(self).target + 1) % (old(self).n_links as int),
            final(self).wf(),
    {
        self.target = (self.target + 1) % self.n_links;
    }

    /// The keystroke plan that walks the caret from where it sits to the
    /// highlighted option: which arrow key, pressed how many times.
    pub fn cursor_moves(&self) -> (r: (u8, usize))
        requires
            self.wf(),
        ensures
            self.target > self.current ==> r == (KEY_DOWN, (self.target - self.current) as usize),
            self.target <= self.current ==> r == (KEY_UP, (self.current - self.target) as usize),
    {
        if self.target > self.current {
            (KEY_DOWN, self.target - self.current)
        } else {
            (KEY_UP, self.current - self.target)
        }
    }

    /// The caret has been walked: it now sits on the highlighted option.
    pub fn commit(&mut self)
        requires
            old(self).wf(),
        ensures
            final(self).n_links == old(self).n_links,
            final(self).target == old(self).target,
            final(self).current == old(self).target,
            final(self).wf(),
    {
        self.current = self.target;
    }

    /// One resolved press of the selection loop: a timeout settles the
    /// choice and changes nothing; a release before the timeout advances
    /// the highlight and walks the caret onto it. Returns whether the
    /// selection is settled, and the keystroke plan for the walk.
    pub fn step(&mut self, outcome: RaceOutcome) -> (r: (bool, u8, usize))
        requires
            old(self).wf(),
        ensures
            final(self).wf(),
            final(self).n_links == old(self).n_links,
            outcome is Timeout ==> r.0 && *final(self) == *old(self) && r.2 == 0,
            outcome is Release ==> {
                &&& !r.0
                &&& final(self).target == (old(self).target + 1) % (old(self).n_links as int)
                &&& final(self).current == final(self).target
                &&& (final(self).target > old(self).current ==> (r.1, r.2) == (
                    KEY_DOWN,
                    (final(self).target - old(self).current) as usize,
                ))
                &&& (final(self).target <= old(self).current ==> (r.1, r.2) == (
                    KEY_UP,
                    (old(self).current - final(self).target) as usize,
                ))
            },
    {
        match outcome {
            RaceOutcome::Timeout => (true, KEY_UP, 0),
            RaceOutcome::Release => {
                self.advance();
                let (key, steps) = self.cursor_moves();
                self.commit();
                (false, key, steps)
            },
        }
    }

    /// The settled choice: the option the caret sits on.
    pub fn chosen(&self) -> (r: usize)
        ensures
            r == self.current,
    {
        self.current
    }

    /// After settling, the cursor walks down past the remaining options so
    /// the next passage starts below the menu.
    pub fn finish_moves(&self) -> (steps: usize)
        requires
            self.wf(),
        ensures
            steps == self.n_links - self.current,
    {
        self.n_links - self.current
    }
}

} // verus!
