use vstd::prelude::*;

use vstd::arithmetic::div_mod::{
    lemma_add_mod_noop,
    lemma_add_mod_noop_right,
    lemma_mod_bound,
    lemma_mod_twice,
    lemma_small_mod,
};

verus! {

/// The phase reached from `phase` after `n` samples: each sample adds `step`
/// and wraps the sum back into one cycle of `period` units.
pub open spec fn phase_after(phase: nat, step: nat, period: nat, n: nat) -> nat
    decreases n,
{
    if n == 0 {
        phase
    } else {
        (phase_after(phase, step, period, (n - 1) as nat) + step) % period
    }
}

/// Wrapping after every sample accumulates no error: the phase after `n` samples
/// is exactly `(phase + n · step) mod period`, the value a sample counter gives.
pub proof fn lemma_phase_after_closed_form(phase: nat, step: nat, period: nat, n: nat)
    requires
        0 < period,
        phase < period,
    ensures
        phase_after(phase, step, period, n) == (phase + n * step) % period,
    decreases n,
{
    if n == 0 {
        lemma_small_mod(phase, period);
    } else {
        let k = (n - 1) as nat;
        lemma_phase_after_closed_form(phase, step, period, k);
        let prev = phase + k * step;
        lemma_add_mod_noop_right(step as int, prev as int, period as int);
        assert(prev + step == phase + n * step) by (nonlinear_arith)
            requires
                prev == phase + k * step,
                k == n - 1,
                n > 0,
        ;
    }
}

/// Every reachable phase stays within one cycle, `[0, 2π)`.
pub proof fn lemma_phase_after_in_cycle(phase: nat, step: nat, period: nat, n: nat)
    requires
        0 < period,
        phase < period,
    ensures
        phase_after(phase, step, period, n) < period,
{
    lemma_phase_after_closed_form(phase, step, period, n);
    lemma_mod_bound((phase + n * step) as int, period as int);
}

/// Producing `n` samples and then `m` more reaches the same phase as producing
/// `n + m` at once: blocks continue one another without a seam.
pub proof fn lemma_blocks_compose(phase: nat, step: nat, period: nat, n: nat, m: nat)
    ensures
        phase_after(phase_after(phase, step, period, n), step, period, m) == phase_after(
            phase,
            step,
            period,
            n + m,
        ),
    decreases m,
{
    if m > 0 {
        lemma_blocks_compose(phase, step, period, n, (m - 1) as nat);
        assert((n + m - 1) as nat == n + (m - 1) as nat);
    }
}

/// The sequence of phases repeats after `m` samples whenever `m` steps make a
/// whole number of cycles.
pub proof fn lemma_periodic(phase: nat, step: nat, period: nat, n: nat, m: nat)
    requires
        0 < period,
        phase < period,
        (m * step) % period == 0,
    ensures
        phase_after(phase, step, period, n + m) == phase_after(phase, step, period, n),
{
    lemma_phase_after_closed_form(phase, step, period, n);
    lemma_phase_after_closed_form(phase, step, period, n + m);
    let a = phase + n * step;
    let b = m * step;
    assert(phase + (n + m) * step == a + b) by (nonlinear_arith)
        requires
            a == phase + n * step,
            b == m * step,
    ;
    lemma_add_mod_noop(a as int, b as int, period as int);
    lemma_mod_twice(a as int, period as int);
}

/// With a step of zero the phase never leaves 0, so every sample is
/// `sin(0) = 0`: silence.
pub proof fn lemma_zero_step_silence(period: nat, n: nat)
    requires
        0 < period,
    ensures
        phase_after(0, 0, period, n) == 0,
{
    lemma_phase_after_closed_form(0, 0, period, n);
    assert(n * 0 == 0) by (nonlinear_arith);
    lemma_small_mod(0, period);
}

} // verus!
