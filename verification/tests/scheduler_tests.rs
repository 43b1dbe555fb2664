//! The scheduler core: deadline coalescing, the press latch, the mailbox,
//! debouncing and click classification.

use ghostwriter::click::{classify_press, click_keycode, resolve_race, ClickTracker, PressKind, RaceOutcome};
use ghostwriter::debounce::Debouncer;
use ghostwriter::input::{edge_event, Keypress, PressLatch};
use ghostwriter::signal::Signal;
use ghostwriter::sleep::{poll_sleep, sleep_target, DeadlineTimer, PollStatus};
use ghostwriter::time::{Duration, Instant};

#[test]
fn deadlines_coalesce_to_the_minimum() {
    let mut timer = DeadlineTimer::new();
    timer.note_deadline(Instant { micros: 500 });
    timer.note_deadline(Instant { micros: 300 });
    timer.note_deadline(Instant { micros: 400 });
    assert_eq!(timer.take_pending(), Some(Instant { micros: 300 }));
    assert_eq!(timer.take_pending(), None);
}

#[test]
fn winding_rebases_past_deadlines_to_now() {
    let mut timer = DeadlineTimer::new();
    timer.note_deadline(Instant { micros: 100 });
    assert_eq!(timer.wind(Instant { micros: 900 }), Some(Instant { micros: 900 }));

    timer.note_deadline(Instant { micros: 2000 });
    assert_eq!(timer.wind(Instant { micros: 900 }), Some(Instant { micros: 2000 }));

    assert_eq!(timer.wind(Instant { micros: 900 }), None);
}

#[test]
fn sleep_polls_merge_their_target() {
    let mut timer = DeadlineTimer::new();
    let target = sleep_target(Instant { micros: 1000 }, 50);
    assert_eq!(target, Instant { micros: 51000 });

    let r = poll_sleep(target, Instant { micros: 1000 }, &mut timer);
    assert_eq!(r, PollStatus::Pending);
    assert_eq!(timer.take_pending(), Some(target));

    let r = poll_sleep(target, Instant { micros: 60000 }, &mut timer);
    assert_eq!(r, PollStatus::Ready);
    assert_eq!(timer.take_pending(), None);
}

#[test]
fn time_arithmetic() {
    let d = Duration::from_millis(300);
    assert_eq!(d.micros, 300_000);
    assert_eq!(d.to_millis(), 300);
    let t = Instant::boot().saturating_add(d);
    assert_eq!(t.micros, 300_000);
    assert_eq!(t.duration_since(Instant::boot()).to_millis(), 300);
    assert!(Instant::boot().is_before(t));
    assert_eq!(t.earliest(Instant { micros: 5 }).micros, 5);
    assert_eq!(Instant { micros: u64::MAX }.saturating_add(d).micros, u64::MAX);
}

#[test]
fn latch_keeps_only_the_newest_edge() {
    let mut latch = PressLatch::new();
    assert_eq!(latch.take(), None);
    latch.latch(Keypress::Down);
    latch.latch(Keypress::Up);
    assert_eq!(latch.take(), Some(Keypress::Up));
    assert_eq!(latch.take(), None);
}

#[test]
fn press_polls_suspend_until_an_edge() {
    let mut latch = PressLatch::new();
    let (status, event) = latch.poll_press();
    assert_eq!(status, PollStatus::Pending);
    assert_eq!(event, None);
    latch.latch(Keypress::Down);
    let (status, event) = latch.poll_press();
    assert_eq!(status, PollStatus::Ready);
    assert_eq!(event, Some(Keypress::Down));
}

#[test]
fn mailbox_polls_suspend_until_a_write() {
    let mut signal: Signal<u8> = Signal::new();
    let (status, v) = signal.poll_wait();
    assert_eq!(status, PollStatus::Pending);
    assert_eq!(v, None);
    signal.signal(9);
    let (status, v) = signal.poll_wait();
    assert_eq!(status, PollStatus::Ready);
    assert_eq!(v, Some(9));
}

#[test]
fn edges_map_to_presses() {
    assert_eq!(edge_event(true, false), Some(Keypress::Down));
    assert_eq!(edge_event(false, true), Some(Keypress::Up));
    assert_eq!(edge_event(true, true), Some(Keypress::Down));
    assert_eq!(edge_event(false, false), None);
}

#[test]
fn mailbox_yields_only_the_last_write() {
    let mut signal: Signal<u32> = Signal::new();
    assert_eq!(signal.try_take(), None);
    signal.signal(1);
    signal.signal(2);
    signal.signal(3);
    assert_eq!(signal.try_take(), Some(3));
    assert_eq!(signal.try_take(), None);
}

#[test]
fn debounce_threshold_spacing() {
    let mut d = Debouncer::new(300);
    // The very first edge after boot falls inside the guard window.
    assert!(!d.offer(100));
    assert!(d.offer(300));
    assert!(!d.offer(400));
    assert!(d.offer(600));
}

#[test]
fn two_presses_in_quick_succession_yield_one_event() {
    // Presses 100 ms apart under a 300 ms threshold: the second one is
    // discarded, exactly one accepted event goes downstream.
    let mut d = Debouncer::new(300);
    let accepted = d.offer_all(&vec![1000, 1100]);
    assert_eq!(accepted, vec![1000]);
}

#[test]
fn debounce_surfaces_exactly_the_spaced_subsequence() {
    let mut d = Debouncer::new(300);
    let accepted = d.offer_all(&vec![100, 350, 600, 650, 710, 1000]);
    assert_eq!(accepted, vec![350, 650, 1000]);
}

#[test]
fn click_requires_a_human_length_press() {
    let mut c = ClickTracker::new(50);
    // Too fast: noise.
    assert!(!c.observe(Keypress::Down, 1000));
    assert!(!c.observe(Keypress::Up, 1030));
    // A real press.
    assert!(!c.observe(Keypress::Down, 2000));
    assert!(c.observe(Keypress::Up, 2100));
    // Two downs in a row restart the wait.
    assert!(!c.observe(Keypress::Down, 3000));
    assert!(!c.observe(Keypress::Down, 3200));
    assert!(!c.observe(Keypress::Up, 3900));
    // A stray up while waiting means nothing.
    assert!(!c.observe(Keypress::Up, 4000));
}

#[test]
fn race_resolves_by_strict_order() {
    assert_eq!(resolve_race(599, 600), RaceOutcome::Release);
    assert_eq!(resolve_race(600, 600), RaceOutcome::Timeout);
    assert_eq!(resolve_race(0, 0), RaceOutcome::Timeout);
    assert_eq!(resolve_race(0, 1), RaceOutcome::Release);
}

#[test]
fn short_press_scenario() {
    // Held 200 ms then released, debounce threshold 300 ms, timeout
    // 600 ms: classified a short press, since 200 < 600.
    let mut d = Debouncer::new(300);
    assert!(d.offer(1000));
    let held_ms = 1200 - 1000;
    let kind = classify_press(held_ms, 600);
    assert_eq!(kind, PressKind::Short);
    assert_eq!(click_keycode(kind), 44);
    assert_eq!(click_keycode(PressKind::Long), 40);
}
