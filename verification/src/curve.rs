//! Animation curve evaluation: a pure function of elapsed time and shape
//! parameters, in fixed-point per-mille arithmetic (1000 = full scale).
//!
//! Two shapes exist: a continuous sine-like oscillation between two
//! intensity bounds over a fixed period, and a one-shot asymmetric pulse
//! `M·(t/b)·e^(1−t/b)` that starts at zero, peaks with value `M` at the
//! peak time `b`, tails off, and optionally restarts every loop interval.
//! The evaluator is stateless: only the caller owns the instant the
//! animation started.

use vstd::prelude::*;

use vstd::arithmetic::div_mod::{
    lemma_add_mod_noop_right,
    lemma_div_by_multiple,
    lemma_div_by_self,
    lemma_div_is_ordered,
    lemma_div_is_ordered_by_denominator,
    lemma_div_of0,
    lemma_mod_self_0,
    lemma_multiply_divide_lt,
    lemma_small_mod,
};

verus! {

/// The truncated exponential series behind `exp_unit_pm`, over the
/// mathematical integers: `e^(x/1000)` in per-mille.
pub open spec fn exp_unit_spec(x: int) -> int {
    1000 + x + x * x / 2000 + x * x * x / 6000000 + x * x * x * x / 24000000000 + x * x * x * x * x
        / 120000000000000
}

/// A value decayed by one factor of e per step, in per-mille.
pub open spec fn decay_steps(v: int, k: nat) -> int
    decreases k,
{
    if k == 0 {
        v
    } else {
        decay_steps(v * 1000 / 2718, (k - 1) as nat)
    }
}

/// The decaying exponential behind `exp_decay_pm`: `e^(-z/1000)` in
/// per-mille, zero once the decay is far below one per-mille.
pub open spec fn exp_decay_spec(z: int) -> int {
    if z / 1000 >= 30 {
        0
    } else {
        decay_steps(1000000int / exp_unit_spec(z % 1000), (z / 1000) as nat)
    }
}

/// The pulse shape as a function of time and peak alone: progress toward
/// the peak in per-mille, scaled by the matching exponential, clamped to
/// full scale. `pulse_shape_pm` returns exactly this.
pub open spec fn pulse_shape_spec(t: int, b: int) -> int {
    if t / b >= 31 {
        0
    } else {
        let u = (t / b) * 1000 + (t % b) * 1000 / b;
        let raw = if u <= 1000 {
            u * exp_unit_spec(1000 - u) / 1000
        } else {
            u * exp_decay_spec(u - 1000) / 1000
        };
        if raw > 1000 {
            1000
        } else {
            raw
        }
    }
}

/// One half-wave of the rational sine approximation behind `half_wave_pm`.
pub open spec fn half_wave_spec(q: int) -> int {
    let raw = 16000 * (q * (500 - q)) / (1250000 - 4 * (q * (500 - q)));
    if raw > 1000 {
        1000
    } else {
        raw
    }
}

/// The full oscillation cycle behind `wave_pm`, as a function of the phase
/// alone.
pub open spec fn wave_spec(phase: int) -> int {
    if phase < 500 {
        500 + half_wave_spec(phase) / 2
    } else {
        500 - half_wave_spec(phase - 500) / 2
    }
}

/// `e^(x/1000)` in per-mille for `x` in [0, 1000], by truncated series:
/// exactly the series value, exactly 1000 at `x == 0`, never above 2716
/// (about `e` at full scale).
pub fn exp_unit_pm(x: u64) -> (r: u64)
    requires
        x <= 1000,
    ensures
        r == exp_unit_spec(x as int),
        1000 <= r <= 2716,
        x == 0 ==> r == 1000,
{
    proof {
        assert(x * x <= 1000000) by (nonlinear_arith)
            requires
                x <= 1000,
        ;
    }
    let x2 = x * x;
    proof {
        assert(x2 * x <= 1000000000) by (nonlinear_arith)
            requires
                x2 <= 1000000 && x <= 1000,
        ;
    }
    let x3 = x2 * x;
    proof {
        assert(x3 * x <= 1000000000000) by (nonlinear_arith)
            requires
                x3 <= 1000000000 && x <= 1000,
        ;
    }
    let x4 = x3 * x;
    proof {
        assert(x4 * x <= 1000000000000000) by (nonlinear_arith)
            requires
                x4 <= 1000000000000 && x <= 1000,
        ;
    }
    let x5 = x4 * x;
    proof {
        lemma_div_is_ordered(x2 as int, 1000000, 2000);
        lemma_div_is_ordered(x3 as int, 1000000000, 6000000);
        lemma_div_is_ordered(x4 as int, 1000000000000, 24000000000);
        lemma_div_is_ordered(x5 as int, 1000000000000000, 120000000000000);
    }
    1000 + x + x2 / 2000 + x3 / 6000000 + x4 / 24000000000 + x5 / 120000000000000
}

/// `e^(-z/1000)` in per-mille: exactly the decayed series value, exactly
/// 1000 at `z == 0`, never above 1000, and cut to zero once the decay is
/// far below one per-mille.
pub fn exp_decay_pm(z: u64) -> (r: u64)
    ensures
        r == exp_decay_spec(z as int),
        r <= 1000,
        z == 0 ==> r == 1000,
{
    let whole = z / 1000;
    if whole >= 30 {
        0
    } else {
        let e = exp_unit_pm(z % 1000);
        proof {
            lemma_div_is_ordered_by_denominator(1000000, 1000, e as int);
        }
        let mut r = 1000000 / e;
        let mut i: u64 = 0;
        while i < whole
            invariant
                i <= whole,
                r <= 1000,
                z == 0 ==> r == 1000 && whole == 0,
                decay_steps(r as int, (whole - i) as nat) == exp_decay_spec(z as int),
            decreases whole - i,
        {
            proof {
                lemma_div_is_ordered((r * 1000) as int, 1000000, 2718);
                assert(decay_steps(r as int, (whole - i) as nat) == decay_steps(
                    r * 1000 / 2718,
                    (whole - i - 1) as nat,
                ));
            }
            r = r * 1000 / 2718;
            i = i + 1;
        }
        r
    }
}

/// The pulse shape `(t/b)·e^(1−t/b)` in per-mille, clamped to full scale:
/// exactly `pulse_shape_spec`, a function of the elapsed time and the peak
/// alone — zero at `t == 0`, exactly full scale at the peak `t == b`,
/// never above full scale anywhere, so the curve's maximum over all `t` is
/// at the peak.
pub fn pulse_shape_pm(t_ms: u64, peak_ms: u64) -> (r: u64)
    requires
        peak_ms >= 1,
    ensures
        r == pulse_shape_spec(t_ms as int, peak_ms as int),
        r <= 1000,
        t_ms == 0 ==> r == 0,
        t_ms == peak_ms ==> r == 1000,
{
    let whole = t_ms / peak_ms;
    proof {
        // The two promised points: at t == 0 the division and remainder are
        // both zero, at t == peak they are one and zero.
        lemma_div_of0(peak_ms as int);
        lemma_div_by_self(peak_ms as int);
        lemma_small_mod(0, peak_ms as nat);
        lemma_mod_self_0(peak_ms as int);
    }
    if whole >= 31 {
        // More than 30 peak-times past the start: the tail is below one
        // per-mille, indistinguishable from off.
        0
    } else {
        let q = t_ms % peak_ms;
        proof {
            if t_ms == 0 || t_ms == peak_ms {
                assert(q == 0);
                assert(q * 1000 == 0);
            }
            lemma_multiply_divide_lt((q * 1000) as int, peak_ms as int, 1000);
        }
        let frac_wide: u128 = (q as u128) * 1000 / (peak_ms as u128);
        let frac: u64 = frac_wide as u64;
        // Progress toward the peak, per-mille: exactly 1000 at the peak.
        let u = whole * 1000 + frac;
        if u <= 1000 {
            let e = exp_unit_pm(1000 - u);
            proof {
                assert(u * e <= 1000 * 2716) by (nonlinear_arith)
                    requires
                        u <= 1000 && e <= 2716,
                ;
                if t_ms == 0 {
                    assert(u == 0);
                    assert(u * e == 0) by (nonlinear_arith)
                        requires
                            u == 0,
                    ;
                }
                if t_ms == peak_ms {
                    assert(u == 1000 && e == 1000);
                    assert(u * e == 1000000) by (nonlinear_arith)
                        requires
                            u == 1000 && e == 1000,
                    ;
                }
            }
            let raw = u * e / 1000;
            if raw > 1000 {
                1000
            } else {
                raw
            }
        } else {
            let e = exp_decay_pm(u - 1000);
            proof {
                assert(u * e <= 31000 * 1000) by (nonlinear_arith)
                    requires
                        u <= 31000 && e <= 1000,
                ;
            }
            let raw = u * e / 1000;
            if raw > 1000 {
                1000
            } else {
                raw
            }
        }
    }
}

/// The intensity of the one-shot pulse at `t`: the lower bound plus the
/// amplitude `max − min` scaled by the pulse shape — a function of the
/// elapsed time and the shape parameters alone. It starts at the lower
/// bound, peaks at exactly the upper bound at `t == b` (the maximum over
/// all of `t ≥ 0`), and stays inside the bounds throughout.
pub fn pulse_intensity_pm(t_ms: u64, peak_ms: u64, min_pm: u64, max_pm: u64) -> (r: u64)
    requires
        peak_ms >= 1,
        min_pm <= max_pm,
        max_pm <= 1000,
    ensures
        r == min_pm + (max_pm - min_pm) * pulse_shape_spec(t_ms as int, peak_ms as int) / 1000,
        min_pm <= r <= max_pm,
        t_ms == 0 ==> r == min_pm,
        t_ms == peak_ms ==> r == max_pm,
{
    let shape = pulse_shape_pm(t_ms, peak_ms);
    let amp = max_pm - min_pm;
    proof {
        assert(amp * shape <= amp * 1000) by (nonlinear_arith)
            requires
                shape <= 1000 && amp >= 0,
        ;
        if shape == 0 {
            assert(amp * shape == 0) by (nonlinear_arith)
                requires
                    shape == 0,
            ;
        }
        lemma_div_is_ordered((amp * shape) as int, (amp * 1000) as int, 1000);
        lemma_div_by_multiple(amp as int, 1000);
    }
    min_pm + amp * shape / 1000
}

/// One half-wave of a rational sine approximation, per-mille: exactly zero
/// at both ends of the half-period and exactly full scale at its middle.
fn half_wave_pm(q: u64) -> (r: u64)
    requires
        q <= 500,
    ensures
        r == half_wave_spec(q as int),
        r <= 1000,
        q == 0 || q == 500 ==> r == 0,
        q == 250 ==> r == 1000,
{
    proof {
        assert(q * (500 - q) <= 62500) by (nonlinear_arith)
            requires
                q <= 500,
        ;
    }
    let p = q * (500 - q);
    proof {
        if q == 250 {
            assert(p == 62500) by (nonlinear_arith)
                requires
                    q == 250 && p == q * (500 - q),
            ;
        }
        if q == 0 || q == 500 {
            assert(p == 0) by (nonlinear_arith)
                requires
                    (q == 0 || q == 500) && p == q * (500 - q),
            ;
        }
    }
    let raw = 16000 * p / (1250000 - 4 * p);
    proof {
        if q == 250 {
            assert(raw == 1000000000int / 1000000);
        }
    }
    if raw > 1000 {
        1000
    } else {
        raw
    }
}

/// A full oscillation cycle in per-mille of the intensity range:
/// `500 + 500·sin(2π·phase/1000)`, exact at the quarter points — the
/// midpoint at the start, the crest a quarter in, the midpoint again
/// halfway, the trough at three quarters.
pub fn wave_pm(phase_pm: u64) -> (r: u64)
    requires
        phase_pm < 1000,
    ensures
        r == wave_spec(phase_pm as int),
        r <= 1000,
        phase_pm == 0 ==> r == 500,
        phase_pm == 250 ==> r == 1000,
        phase_pm == 500 ==> r == 500,
        phase_pm == 750 ==> r == 0,
{
    if phase_pm < 500 {
        let s = half_wave_pm(phase_pm);
        500 + s / 2
    } else {
        let s = half_wave_pm(phase_pm - 500);
        500 - s / 2
    }
}

/// The intensity of the continuous oscillation at the given phase of its
/// period: between the bounds, at their midpoint when the phase is zero,
/// exactly the upper bound at the crest and the lower bound at the trough.
pub fn wave_intensity_pm(phase_pm: u64, min_pm: u64, max_pm: u64) -> (r: u64)
    requires
        phase_pm < 1000,
        min_pm <= max_pm,
        max_pm <= 1000,
    ensures
        r == min_pm + (max_pm - min_pm) * wave_spec(phase_pm as int) / 1000,
        min_pm <= r <= max_pm,
        phase_pm == 250 ==> r == max_pm,
        phase_pm == 750 ==> r == min_pm,
{
    let w = wave_pm(phase_pm);
    let amp = max_pm - min_pm;
    proof {
        assert(amp * w <= amp * 1000) by (nonlinear_arith)
            requires
                w <= 1000 && amp >= 0,
        ;
        if w == 0 {
            assert(amp * w == 0) by (nonlinear_arith)
                requires
                    w == 0,
            ;
        }
        lemma_div_is_ordered((amp * w) as int, (amp * 1000) as int, 1000);
        lemma_div_by_multiple(amp as int, 1000);
    }
    min_pm + amp * w / 1000
}

/// Advance the oscillation phase by an elapsed span: the new phase of the
/// period, wrapped around.
pub fn advance_phase_pm(phase_pm: u64, delta_ms: u64, period_ms: u64) -> (r: u64)
    requires
        phase_pm < 1000,
        period_ms >= 1,
        delta_ms <= u64::MAX / 1000,
    ensures
        r < 1000,
        r == (phase_pm + delta_ms * 1000 / (period_ms as int)) % 1000,
{
    let step = delta_ms * 1000 / period_ms;
    proof {
        lemma_add_mod_noop_right(phase_pm as int, step as int, 1000);
    }
    (phase_pm + step % 1000) % 1000
}

} // verus!
