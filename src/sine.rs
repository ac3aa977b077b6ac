use vstd::prelude::*;

use vstd::arithmetic::div_mod::{lemma_mod_sub_multiples_vanish, lemma_small_mod};

use crate::phase::phase_after;

verus! {

/// A phase-accumulating sine oscillator.
///
/// The phase is held exactly, as a whole number of units, where one unit is
/// `1 / sample_rate` of a cycle (an angle of `2π / sample_rate` radians).
/// A frequency of `f` Hz is then a step of exactly `f` units per sample, and the
/// sample for position `p` is `sin(2π · p / sample_rate)`.
pub struct Sine {
    phase: u32,
    step: u32,
    sample_rate: u32,
}

impl Sine {
    /// Current phase, in units of `1 / sample_rate` of a cycle.
    pub closed spec fn phase_spec(&self) -> nat {
        self.phase as nat
    }

    /// Phase increment per sample, in the same units.
    pub closed spec fn step_spec(&self) -> nat {
        self.step as nat
    }

    /// Units in one full cycle (`2π`), equal to the sample rate.
    pub closed spec fn period_spec(&self) -> nat {
        self.sample_rate as nat
    }

    /// The oscillator's invariant: the phase lies in one cycle, `[0, 2π)`, and a
    /// step is shorter than a cycle, so one subtraction wraps it.
    pub open spec fn wf(&self) -> bool {
        &&& 0 < self.period_spec()
        &&& self.phase_spec() < self.period_spec()
        &&& self.step_spec() < self.period_spec()
    }

    /// Creates an oscillator at phase 0 whose step is `2π · freq_hz / sample_rate`,
    /// i.e. `freq_hz` units of `1 / sample_rate` cycle.
    pub fn new(freq_hz: u32, sample_rate: u32) -> (r: Sine)
        requires
            0 < sample_rate,
            freq_hz < sample_rate,
        ensures
            r.wf(),
            r.phase_spec() == 0,
            r.step_spec() == freq_hz,
            r.period_spec() == sample_rate,
    {
        Sine { phase: 0, step: freq_hz, sample_rate }
    }

    /// Current phase, in units of `1 / sample_rate` of a cycle.
    pub fn phase(&self) -> (r: u32)
        ensures
            r == self.phase_spec(),
    {
        self.phase
    }

    /// Phase increment per sample, in units of `1 / sample_rate` of a cycle.
    pub fn step(&self) -> (r: u32)
        ensures
            r == self.step_spec(),
    {
        self.step
    }

    /// Units in one cycle: the sample rate the oscillator was made for.
    pub fn sample_rate(&self) -> (r: u32)
        ensures
            r == self.period_spec(),
    {
        self.sample_rate
    }

    /// Returns the position of the current sample, then advances the phase by one
    /// step, subtracting a full cycle when it reaches `2π`.
    ///
    /// The sample value is `sin(2π · r / sample_rate)`.
    pub fn next(&mut self) -> (r: u32)
        requires
            old(self).wf(),
        ensures
            final(self).wf(),
            r == old(self).phase_spec(),
            final(self).phase_spec() == (old(self).phase_spec() + old(self).step_spec())
                % old(self).period_spec(),
            final(self).step_spec() == old(self).step_spec(),
            final(self).period_spec() == old(self).period_spec(),
    {
        let v = self.phase;
        let sum: u64 = self.phase as u64 + self.step as u64;
        let period: u64 = self.sample_rate as u64;
        let wrapped: u64 = if sum >= period {
            sum - period
        } else {
            sum
        };
        proof {
            if sum >= period {
                lemma_mod_sub_multiples_vanish(sum as int, period as int);
                lemma_small_mod((sum - period) as nat, period as nat);
            } else {
                lemma_small_mod(sum as nat, period as nat);
            }
        }
        self.phase = wrapped as u32;
        v
    }

    /// Fills `out` with the positions of consecutive samples, one call of `next`
    /// per frame in order, so that one block continues exactly where the previous
    /// one stopped. Nothing is allocated.
    pub fn render(&mut self, out: &mut [u32])
        requires
            old(self).wf(),
        ensures
            final(self).wf(),
            final(self).step_spec() == old(self).step_spec(),
            final(self).period_spec() == old(self).period_spec(),
            final(out)@.len() == old(out)@.len(),
            forall|i: int|
                0 <= i < old(out)@.len() ==> #[trigger] final(out)@[i] == phase_after(
                    old(self).phase_spec(),
                    old(self).step_spec(),
                    old(self).period_spec(),
                    i as nat,
                ),
            final(self).phase_spec() == phase_after(
                old(self).phase_spec(),
                old(self).step_spec(),
                old(self).period_spec(),
                old(out)@.len(),
            ),
    {
        let ghost start = self.phase_spec();
        let ghost step = self.step_spec();
        let ghost period = self.period_spec();
        let n = out.len();
        let mut i: usize = 0;
        while i < n
            invariant
                i <= n,
                n == out@.len(),
                self.wf(),
                self.step_spec() == step,
                self.period_spec() == period,
                self.phase_spec() == phase_after(start, step, period, i as nat),
                forall|j: int|
                    0 <= j < i ==> #[trigger] out@[j] == phase_after(start, step, period, j as nat),
            decreases n - i,
        {
            let v = self.next();
            out[i] = v;
            i = i + 1;
        }
    }
}

} // verus!
