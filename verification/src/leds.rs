//! LED status rendering: animation requests, per-tick evaluation and the
//! color arithmetic feeding the PWM duty cycles.
//!
//! Intensities and color channels are per-mille (1000 = full on). A
//! renderer owns the instant its current animation started; a mailbox
//! write replaces the animation and restarts that clock.

use vstd::prelude::*;

use vstd::arithmetic::div_mod::{
    lemma_div_by_multiple,
    lemma_div_is_ordered,
    lemma_mod_add_multiples_vanish,
    lemma_multiply_divide_lt,
};

use crate::curve;
use crate::curve::pulse_shape_spec;

verus! {

/// Whether the typer is currently emitting keystrokes.
#[derive(Clone, Copy, PartialEq, Eq, Structural, Debug)]
pub enum State {
    Typing,
    Stopped,
}

impl State {
    /// The opposite state: what a button press flips to.
    pub fn toggle(&self) -> (r: State)
        ensures
            *self is Typing ==> r is Stopped,
            *self is Stopped ==> r is Typing,
    {
        match self {
            State::Typing => State::Stopped,
            State::Stopped => State::Typing,
        }
    }
}

/// An animation request, the mailbox payload: a target color, intensity
/// bounds, the pulse's time-to-peak, and an optional loop interval (absent:
/// tail off and never loop).
#[derive(Clone, Copy, Debug)]
pub struct Animation {
    pub color: (u64, u64, u64),
    pub bounds: (u64, u64),
    pub peak_after_ms: u64,
    pub loop_after_ms: Option<u64>,
}

impl Animation {
    /// Channels and bounds within scale, a positive peak time, and a
    /// positive loop interval when one is given.
    pub open spec fn wf(self) -> bool {
        &&& self.color.0 <= 1000
        &&& self.color.1 <= 1000
        &&& self.color.2 <= 1000
        &&& self.bounds.0 <= self.bounds.1 <= 1000
        &&& self.peak_after_ms >= 1
        &&& (self.loop_after_ms matches Some(l) ==> l >= 1)
    }

    /// Elapsed time folded by the loop interval: looping animations restart
    /// their clock every interval.
    pub open spec fn folded_dt(self, elapsed_ms: u64) -> int {
        match self.loop_after_ms {
            None => elapsed_ms as int,
            Some(l) => (elapsed_ms as int) % (l as int),
        }
    }
}

/// The pulse intensity of an animation after `elapsed_ms`: a function of
/// the folded clock and the shape parameters alone — so a looping
/// animation repeats exactly, every interval. It sits at the lower bound
/// when the folded clock is at zero, exactly at the upper bound at the
/// peak, inside the bounds always.
pub fn animation_intensity(anim: &Animation, elapsed_ms: u64) -> (r: u64)
    requires
        anim.wf(),
    ensures
        r == anim.bounds.0 + (anim.bounds.1 - anim.bounds.0) * pulse_shape_spec(
            anim.folded_dt(elapsed_ms),
            anim.peak_after_ms as int,
        ) / 1000,
        anim.bounds.0 <= r <= anim.bounds.1,
        anim.folded_dt(elapsed_ms) == 0 ==> r == anim.bounds.0,
        anim.folded_dt(elapsed_ms) == anim.peak_after_ms ==> r == anim.bounds.1,
{
    let dt = match anim.loop_after_ms {
        None => elapsed_ms,
        Some(l) => elapsed_ms % l,
    };
    curve::pulse_intensity_pm(dt, anim.peak_after_ms, anim.bounds.0, anim.bounds.1)
}

/// Law: a looping animation restarts every loop interval — the folded
/// clock, and with it the rendered intensity (a function of that clock),
/// repeats after one more interval has elapsed.
pub proof fn lemma_looping_is_periodic(anim: Animation, elapsed_ms: u64, l: u64)
    requires
        anim.loop_after_ms == Some(l),
        l >= 1,
        elapsed_ms + l <= u64::MAX,
    ensures
        anim.folded_dt((elapsed_ms + l) as u64) == anim.folded_dt(elapsed_ms),
{
    lemma_mod_add_multiples_vanish(elapsed_ms as int, l as int);
}

/// The rendering task's state: the animation being shown and when it
/// (re)started.
pub struct Renderer {
    pub anim: Animation,
    pub started_at_ms: u64,
}

/// One tick of the LED renderer: a freshly signalled animation (picked up
/// non-blockingly from the mailbox) replaces the current one and restarts
/// the clock; then the intensity for this tick is evaluated from the
/// elapsed time. Evaluation itself is stateless.
pub fn renderer_tick(rend: &mut Renderer, fresh: Option<Animation>, now_ms: u64) -> (i: u64)
    requires
        old(rend).anim.wf(),
        old(rend).started_at_ms <= now_ms,
        fresh matches Some(a) ==> a.wf(),
    ensures
        fresh matches Some(a) ==> final(rend).anim == a && final(rend).started_at_ms == now_ms,
        fresh is None ==> *final(rend) == *old(rend),
        i == final(rend).anim.bounds.0 + (final(rend).anim.bounds.1 - final(rend).anim.bounds.0)
            * pulse_shape_spec(
            final(rend).anim.folded_dt((now_ms - final(rend).started_at_ms) as u64),
            final(rend).anim.peak_after_ms as int,
        ) / 1000,
        final(rend).anim.bounds.0 <= i <= final(rend).anim.bounds.1,
        final(rend).anim.folded_dt((now_ms - final(rend).started_at_ms) as u64) == 0
            ==> i == final(rend).anim.bounds.0,
        final(rend).anim.folded_dt((now_ms - final(rend).started_at_ms) as u64)
            == final(rend).anim.peak_after_ms ==> i == final(rend).anim.bounds.1,
{
    if let Some(a) = fresh {
        rend.anim = a;
        rend.started_at_ms = now_ms;
    }
    let elapsed = now_ms - rend.started_at_ms;
    animation_intensity(&rend.anim, elapsed)
}

/// One color channel scaled by an intensity, both per-mille.
pub fn scale_channel(c: u64, v: u64) -> (r: u64)
    requires
        c <= 1000,
        v <= 1000,
    ensures
        r == c * v / 1000,
        r <= 1000,
{
    proof {
        assert(c * v <= 1000 * 1000) by (nonlinear_arith)
            requires
                c <= 1000 && v <= 1000,
        ;
        lemma_div_is_ordered((c * v) as int, 1000000int, 1000);
    }
    c * v / 1000
}

/// A whole color scaled by an intensity, channelwise.
pub fn scaled_rgb(color: (u64, u64, u64), v: u64) -> (r: (u64, u64, u64))
    requires
        color.0 <= 1000,
        color.1 <= 1000,
        color.2 <= 1000,
        v <= 1000,
    ensures
        r.0 == color.0 * v / 1000 && r.0 <= 1000,
        r.1 == color.1 * v / 1000 && r.1 <= 1000,
        r.2 == color.2 * v / 1000 && r.2 <= 1000,
{
    (scale_channel(color.0, v), scale_channel(color.1, v), scale_channel(color.2, v))
}

/// The PWM duty percentage for a channel intensity: the LEDs are active
/// low, so the duty is the complement of the intensity.
pub fn duty_percent(v: u64) -> (r: u8)
    requires
        v <= 1000,
    ensures
        r as int == (1000 - v) / 10,
        r <= 100,
{
    proof {
        lemma_div_is_ordered((1000 - v) as int, 1000, 10);
    }
    ((1000 - v) / 10) as u8
}

/// The target color of each typer state.
pub fn state_color(s: &State) -> (r: (u64, u64, u64))
    ensures
        *s is Typing ==> r == (1000u64, 111u64, 1000u64),
        *s is Stopped ==> r == (333u64, 200u64, 250u64),
{
    match s {
        State::Typing => (1000, 111, 1000),
        State::Stopped => (333, 200, 250),
    }
}

/// The oscillation of each typer state: intensity bounds and the blink
/// period — a bright fast blink while typing, a dim slow one while stopped.
pub fn state_wave(s: &State) -> (r: (u64, u64, u64))
    ensures
        *s is Typing ==> r == (0u64, 1000u64, 1000u64),
        *s is Stopped ==> r == (300u64, 500u64, 2000u64),
{
    match s {
        State::Typing => (0, 1000, 1000),
        State::Stopped => (300, 500, 2000),
    }
}

/// Where a linear cross-fade stands between two channel values at the
/// given progress.
pub open spec fn lerp_spec(from: u64, to: u64, ratio_pm: u64) -> int {
    if to >= from {
        from + (to - from) * ratio_pm / 1000
    } else {
        from - (from - to) * ratio_pm / 1000
    }
}

/// Progress of a fixed-length cross-fade at `now`, per-mille, clamped once
/// the fade is done.
pub fn fade_ratio_pm(started_ms: u64, now_ms: u64, duration_ms: u64) -> (r: u64)
    requires
        started_ms <= now_ms,
        duration_ms >= 1,
    ensures
        r <= 1000,
        now_ms - started_ms >= duration_ms ==> r == 1000,
        now_ms - started_ms < duration_ms && now_ms - started_ms <= u64::MAX / 1000 ==> r == (
        now_ms - started_ms) * 1000 / (duration_ms as int),
{
    let e = now_ms - started_ms;
    if e >= duration_ms {
        1000
    } else if e <= u64::MAX / 1000 {
        proof {
            assert(e * 1000 < duration_ms * 1000) by (nonlinear_arith)
                requires
                    e < duration_ms,
            ;
            lemma_multiply_divide_lt((e * 1000) as int, duration_ms as int, 1000);
        }
        e * 1000 / duration_ms
    } else {
        // A fade longer than half a million years: report it barely begun.
        0
    }
}

/// One channel of a linear cross-fade: exactly the start at progress zero,
/// exactly the target at full progress, in range throughout.
pub fn lerp_channel(from: u64, to: u64, ratio_pm: u64) -> (r: u64)
    requires
        from <= 1000,
        to <= 1000,
        ratio_pm <= 1000,
    ensures
        r == lerp_spec(from, to, ratio_pm),
        ratio_pm == 0 ==> r == from,
        ratio_pm == 1000 ==> r == to,
        r <= 1000,
{
    if to >= from {
        let d = to - from;
        proof {
            assert(d * ratio_pm <= d * 1000) by (nonlinear_arith)
                requires
                    ratio_pm <= 1000 && d >= 0,
            ;
            lemma_div_is_ordered((d * ratio_pm) as int, (d * 1000) as int, 1000);
            lemma_div_by_multiple(d as int, 1000);
        }
        from + d * ratio_pm / 1000
    } else {
        let d = from - to;
        proof {
            assert(d * ratio_pm <= d * 1000) by (nonlinear_arith)
                requires
                    ratio_pm <= 1000 && d >= 0,
            ;
            lemma_div_is_ordered((d * ratio_pm) as int, (d * 1000) as int, 1000);
            lemma_div_by_multiple(d as int, 1000);
        }
        from - d * ratio_pm / 1000
    }
}

/// A whole color cross-fade, channelwise.
pub fn lerp_color(from: (u64, u64, u64), to: (u64, u64, u64), ratio_pm: u64) -> (r: (u64, u64, u64))
    requires
        from.0 <= 1000 && from.1 <= 1000 && from.2 <= 1000,
        to.0 <= 1000 && to.1 <= 1000 && to.2 <= 1000,
        ratio_pm <= 1000,
    ensures
        r.0 == lerp_spec(from.0, to.0, ratio_pm) && r.0 <= 1000,
        r.1 == lerp_spec(from.1, to.1, ratio_pm) && r.1 <= 1000,
        r.2 == lerp_spec(from.2, to.2, ratio_pm) && r.2 <= 1000,
        ratio_pm == 0 ==> r == from,
        ratio_pm == 1000 ==> r == to,
{
    (
        lerp_channel(from.0, to.0, ratio_pm),
        lerp_channel(from.1, to.1, ratio_pm),
        lerp_channel(from.2, to.2, ratio_pm),
    )
}

} // verus!
