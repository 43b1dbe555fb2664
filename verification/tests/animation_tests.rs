//! Animation curves, LED rendering arithmetic, and the menu and keystroke
//! state machines.

use ghostwriter::click::RaceOutcome;
use ghostwriter::curve::{
    advance_phase_pm, exp_decay_pm, exp_unit_pm, pulse_intensity_pm, pulse_shape_pm,
    wave_intensity_pm, wave_pm,
};
use ghostwriter::keyboard::{
    char_to_keycode, key_report_pair, release_report, reports_for_ascii, type_step, typing_step,
    KeyReport,
};
use ghostwriter::leds::{
    animation_intensity, duty_percent, fade_ratio_pm, lerp_color, renderer_tick, scaled_rgb,
    state_color, state_wave, Animation, Renderer, State,
};
use ghostwriter::menu::{MenuState, KEY_DOWN, KEY_UP};
use ghostwriter::text;

#[test]
fn pulse_starts_at_zero_and_peaks_at_one() {
    // At t = 0 the pulse contributes nothing.
    assert_eq!(pulse_shape_pm(0, 200), 0);
    // Its maximum over t >= 0 comes exactly at the peak time, at full
    // scale, so peak intensity is min + (max - min).
    assert_eq!(pulse_shape_pm(200, 200), 1000);
    for t in [0u64, 50, 100, 199, 200, 201, 400, 1000, 10_000, 1_000_000] {
        assert!(pulse_shape_pm(t, 200) <= 1000);
    }
    assert_eq!(pulse_intensity_pm(0, 200, 300, 1000), 300);
    assert_eq!(pulse_intensity_pm(200, 200, 300, 1000), 1000);
    let mid = pulse_intensity_pm(100, 200, 300, 1000);
    assert!((300..=1000).contains(&mid));
    // Far into the tail the pulse has died off to the lower bound.
    assert_eq!(pulse_intensity_pm(100_000, 200, 300, 1000), 300);
}

#[test]
fn exponential_fixed_points() {
    assert_eq!(exp_unit_pm(0), 1000);
    let e = exp_unit_pm(1000);
    assert!((2700..=2719).contains(&e));
    assert_eq!(exp_decay_pm(0), 1000);
    assert!(exp_decay_pm(1000) <= 1000);
    assert_eq!(exp_decay_pm(100_000), 0);
}

#[test]
fn wave_quarter_points() {
    assert_eq!(wave_pm(0), 500);
    assert_eq!(wave_pm(250), 1000);
    assert_eq!(wave_pm(500), 500);
    assert_eq!(wave_pm(750), 0);
    assert_eq!(wave_intensity_pm(250, 300, 500), 500);
    assert_eq!(wave_intensity_pm(750, 300, 500), 300);
    let phase = advance_phase_pm(900, 300, 1000);
    assert_eq!(phase, 200);
}

#[test]
fn looping_animation_restarts() {
    let anim = Animation {
        color: (1000, 111, 1000),
        bounds: (0, 1000),
        peak_after_ms: 100,
        loop_after_ms: Some(400),
    };
    // Every multiple of the loop interval the pulse starts over.
    assert_eq!(animation_intensity(&anim, 0), 0);
    assert_eq!(animation_intensity(&anim, 400), 0);
    assert_eq!(animation_intensity(&anim, 800), 0);
    // The peak recurs inside every cycle.
    assert_eq!(animation_intensity(&anim, 100), 1000);
    assert_eq!(animation_intensity(&anim, 500), 1000);
    // Periodicity holds away from the anchor points too.
    assert_eq!(animation_intensity(&anim, 37), animation_intensity(&anim, 437));
    assert_eq!(animation_intensity(&anim, 250), animation_intensity(&anim, 1050));
}

#[test]
fn renderer_adopts_fresh_animations() {
    let one_shot = Animation {
        color: (333, 200, 250),
        bounds: (300, 1000),
        peak_after_ms: 200,
        loop_after_ms: None,
    };
    let mut rend = Renderer { anim: one_shot, started_at_ms: 0 };
    let i = renderer_tick(&mut rend, None, 0);
    assert_eq!(i, 300);
    let i = renderer_tick(&mut rend, None, 200);
    assert_eq!(i, 1000);
    // A mailbox write resets the animation clock.
    let i = renderer_tick(&mut rend, Some(one_shot), 5000);
    assert_eq!(i, 300);
    assert_eq!(rend.started_at_ms, 5000);
}

#[test]
fn color_arithmetic() {
    assert_eq!(scaled_rgb((1000, 111, 1000), 500), (500, 55, 500));
    assert_eq!(duty_percent(0), 100);
    assert_eq!(duty_percent(1000), 0);
    assert_eq!(duty_percent(500), 50);
    assert_eq!(lerp_color((0, 1000, 400), (1000, 0, 400), 0), (0, 1000, 400));
    assert_eq!(lerp_color((0, 1000, 400), (1000, 0, 400), 1000), (1000, 0, 400));
    assert_eq!(lerp_color((0, 1000, 400), (1000, 0, 400), 500), (500, 500, 400));
}

#[test]
fn fades_progress_linearly_and_clamp() {
    assert_eq!(fade_ratio_pm(1000, 1000, 300), 0);
    assert_eq!(fade_ratio_pm(1000, 1150, 300), 500);
    assert_eq!(fade_ratio_pm(1000, 1300, 300), 1000);
    assert_eq!(fade_ratio_pm(1000, 9999, 300), 1000);
}

#[test]
fn states_toggle_and_style() {
    let s = State::Stopped;
    let s = s.toggle();
    assert!(matches!(s, State::Typing));
    assert!(matches!(s.toggle(), State::Stopped));
    assert_eq!(state_color(&State::Typing), (1000, 111, 1000));
    assert_eq!(state_color(&State::Stopped), (333, 200, 250));
    assert_eq!(state_wave(&State::Typing), (0, 1000, 1000));
    assert_eq!(state_wave(&State::Stopped), (300, 500, 2000));
}

#[test]
fn menu_walks_and_wraps() {
    let mut m = MenuState::new(3);
    let (done, key, steps) = m.step(RaceOutcome::Release);
    assert!(!done);
    assert_eq!((key, steps), (KEY_DOWN, 1));
    let (done, _, steps) = m.step(RaceOutcome::Release);
    assert!(!done);
    assert_eq!(steps, 1);
    assert_eq!(m.chosen(), 2);
    // Another short press wraps the highlight back to the first option.
    let (done, key, steps) = m.step(RaceOutcome::Release);
    assert!(!done);
    assert_eq!((key, steps), (KEY_UP, 2));
    let (done, _, steps) = m.step(RaceOutcome::Timeout);
    assert!(done);
    assert_eq!(steps, 0);
    assert_eq!(m.chosen(), 0);
    assert_eq!(m.finish_moves(), 3);
}

#[test]
fn menu_with_a_single_option() {
    let mut m = MenuState::new(1);
    let (done, _, steps) = m.step(RaceOutcome::Release);
    assert!(!done);
    assert_eq!(steps, 0);
    assert_eq!(m.chosen(), 0);
    let (done, _, _) = m.step(RaceOutcome::Timeout);
    assert!(done);
    assert_eq!(m.finish_moves(), 1);
}

#[test]
fn keycode_tables() {
    assert_eq!(char_to_keycode(b'a'), (4, false));
    assert_eq!(char_to_keycode(b'z'), (29, false));
    assert_eq!(char_to_keycode(b'A'), (4, true));
    assert_eq!(char_to_keycode(b'!'), (30, true));
    assert_eq!(char_to_keycode(b'\n'), (40, false));
    assert_eq!(char_to_keycode(b'>'), (55, true));
    assert_eq!(char_to_keycode(b'~'), (56, true));

    assert_eq!(text::char_to_keycode(b'a'), 4);
    assert_eq!(text::char_to_keycode(b','), 54);
    assert_eq!(text::char_to_keycode(b'.'), 55);
    assert_eq!(text::char_to_keycode(b' '), 44);
    assert_eq!(text::char_to_keycode(b'!'), 51);
    assert_eq!(text::char_to_keycode(b'Z'), 0);
}

#[test]
fn report_planning() {
    assert_eq!(release_report(), KeyReport { modifier: 0, keycode: 0 });
    let (lead, key) = reports_for_ascii(b'A');
    assert_eq!(lead, Some(KeyReport { modifier: 2, keycode: 0 }));
    assert_eq!(key, KeyReport { modifier: 2, keycode: 4 });
    let (lead, key) = reports_for_ascii(b'a');
    assert_eq!(lead, None);
    assert_eq!(key.keycode, 4);
    let (down, up) = key_report_pair(40);
    assert_eq!(down, KeyReport { modifier: 0, keycode: 40 });
    assert_eq!(up, KeyReport { modifier: 0, keycode: 0 });
}

#[test]
fn typing_advances_and_wraps() {
    let text_bytes = b"ab";
    assert_eq!(typing_step(false, text_bytes, 0), (0, 0));
    assert_eq!(typing_step(true, text_bytes, 0), (4, 1));
    assert_eq!(typing_step(true, text_bytes, 1), (5, 0));
    let ((lead, key), next) = type_step(text_bytes, 1);
    assert_eq!(lead, None);
    assert_eq!(key.keycode, 5);
    assert_eq!(next, 2);
}
