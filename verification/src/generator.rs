//! The phase clock of the tone generator.
//!
//! A tone of frequency `freq` and amplitude `ampl` at `rate` samples a second
//! has the sample `ampl * sin(2π * freq * phase / rate)` at phase `phase`.
//! The phase counts samples and starts over after each full second, so that
//! it stays exact however long the tone runs. This module keeps the phase;
//! the sine is its caller's to take.

use vstd::prelude::*;

verus! {

/// The phase that follows `phase` at `rate` samples a second.
pub open spec fn next_phase(phase: nat, rate: nat) -> nat {
    (phase + 1) % rate
}

/// The phase after `steps` samples, counted from `phase`.
pub open spec fn phase_after(phase: nat, rate: nat, steps: nat) -> nat
    decreases steps,
{
    if steps == 0 {
        phase
    } else {
        next_phase(phase_after(phase, rate, (steps - 1) as nat), rate)
    }
}

/// Stepping the phase `steps` times adds `steps` to it, modulo the rate.
pub proof fn lemma_phase_after(phase: nat, rate: nat, steps: nat)
    requires
        rate > 0,
        phase < rate,
    ensures
        phase_after(phase, rate, steps) == (phase + steps) % rate,
    decreases steps,
{
    if steps == 0 {
        vstd::arithmetic::div_mod::lemma_small_mod(phase, rate);
    } else {
        lemma_phase_after(phase, rate, (steps - 1) as nat);
        vstd::arithmetic::div_mod::lemma_add_mod_noop((phase + steps - 1) as int, 1, rate as int);
        vstd::arithmetic::div_mod::lemma_mod_twice((phase + steps - 1) as int, rate as int);
        if rate > 1 {
            vstd::arithmetic::div_mod::lemma_small_mod(1, rate);
        }
    }
}

/// The phase clock of one tone.
pub struct SignalGenerator {
    clock: u32,
    sample_rate: u32,
}

impl SignalGenerator {
    /// What holds of every clock: its phase is below its rate.
    #[verifier::type_invariant]
    pub closed spec fn in_range(self) -> bool {
        self.clock < self.sample_rate
    }

    /// The current phase, in samples since the start of the second.
    pub closed spec fn phase(self) -> nat {
        self.clock as nat
    }

    /// The number of samples in a second.
    pub closed spec fn rate(self) -> nat {
        self.sample_rate as nat
    }

    /// The phase of a clock is below its rate.
    pub proof fn lemma_phase_in_range(self)
        requires
            self.in_range(),
        ensures
            self.phase() < self.rate(),
    {
    }

    /// A clock at phase zero. The rate must not be zero.
    pub fn new(sample_rate: u32) -> (generator: SignalGenerator)
        requires
            sample_rate > 0,
        ensures
            generator.phase() == 0,
            generator.rate() == sample_rate,
    {
        SignalGenerator { clock: 0, sample_rate }
    }

    /// Steps the clock by one sample and returns the new phase, which is the
    /// phase of the sample to put out next.
    pub fn next(&mut self) -> (phase: u32)
        ensures
            final(self).rate() == old(self).rate(),
            final(self).phase() == next_phase(old(self).phase(), old(self).rate()),
            phase == final(self).phase(),
            phase < old(self).rate(),
    {
        proof {
            use_type_invariant(&*self);
        }
        let stepped: u32 = if self.clock + 1 == self.sample_rate {
            0
        } else {
            self.clock + 1
        };
        proof {
            if self.clock + 1 == self.sample_rate {
                vstd::arithmetic::div_mod::lemma_mod_self_0(self.sample_rate as int);
            } else {
                vstd::arithmetic::div_mod::lemma_small_mod(
                    (self.clock + 1) as nat,
                    self.sample_rate as nat,
                );
            }
        }
        self.clock = stepped;
        stepped
    }
}

} // verus!
