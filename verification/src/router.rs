//! The channel router: which tone sample goes to which slot of an output
//! buffer, and with what gain.
//!
//! An output buffer holds frames of one slot for each hardware channel. All
//! slots of a frame carry the same sample of the tone, each scaled by the
//! gain that the route has for its channel. The router does not scale. It
//! writes down for every slot the phase of its sample and its gain, and the
//! caller puts `tone(phase) * gain` there, or silence where there is no gain.

use vstd::prelude::*;
use vstd::arithmetic::div_mod::lemma_fundamental_div_mod_converse_div;
use vstd::arithmetic::div_mod::lemma_fundamental_div_mod_converse_mod;
use crate::command::CmdSinout;
use crate::generator::{lemma_phase_after, phase_after, SignalGenerator};
use crate::route::{gain_at, gain_on};
use crate::scalar::Scalar;

verus! {

/// What goes into one slot of an output buffer.
#[derive(Clone, Copy, Debug)]
pub struct Slot {
    /// The phase of the tone sample that the slot's frame carries.
    pub phase: u32,
    /// The gain to put on the sample; `None` stands for silence.
    pub gain: Option<Scalar>,
}

/// The number of frames that a buffer of `len` slots begins: its whole
/// frames, and one more where slots are left over.
pub open spec fn frames_begun(len: nat, channels: nat) -> nat {
    ((len + channels - 1) / (channels as int)) as nat
}

/// Fills an output buffer of frames of `channels` slots each; there must be
/// a channel at least.
///
/// The generator is stepped once for each frame, a last frame that the buffer
/// cuts short included. Slot `t` belongs to frame `t / channels` and to
/// hardware channel `t % channels`: it gets the phase of its frame, which is
/// the generator's phase stepped once more than there are frames before it,
/// and the gain of the route on its channel, which is silence past the
/// route's end.
pub fn sinout_cb(
    output: &mut Vec<Slot>,
    channels: usize,
    params: &CmdSinout,
    generator: &mut SignalGenerator,
)
    requires
        channels > 0,
    ensures
        final(output)@.len() == old(output)@.len(),
        forall|t: int|
            0 <= t < final(output)@.len() ==> (#[trigger] final(output)@[t]).phase == (old(
                generator,
            ).phase() + t / (channels as int) + 1) % (old(generator).rate() as int)
                && final(output)@[t].gain == gain_on(params.channels@, t % (channels as int)),
        forall|t: int|
            0 <= t < final(output)@.len() && t % (channels as int) >= params.channels@.len() ==> (
            #[trigger] final(output)@[t]).gain is None,
        final(generator).rate() == old(generator).rate(),
        final(generator).phase() == (old(generator).phase() + frames_begun(
            old(output)@.len(),
            channels as nat,
        )) % old(generator).rate(),
{
    let len: usize = output.len();
    let ghost start = generator.phase();
    let ghost rate = generator.rate();
    proof {
        use_type_invariant(&*generator);
        generator.lemma_phase_in_range();
    }
    let ghost frame: nat = 0;
    let mut phase: u32 = 0;
    let mut slot: usize = 0;
    let mut channel: usize = 0;
    while slot < len
        invariant
            channels > 0,
            len == output@.len(),
            slot <= len,
            channel < channels,
            slot == frame * channels + channel,
            start < rate,
            generator.rate() == rate,
            generator.phase() == phase_after(
                start,
                rate,
                if channel == 0 {
                    frame
                } else {
                    frame + 1
                },
            ),
            channel > 0 ==> phase == generator.phase(),
            forall|t: int|
                0 <= t < slot ==> (#[trigger] output@[t]).phase == (start + t / (channels as int)
                    + 1) % (rate as int) && output@[t].gain == gain_on(
                    params.channels@,
                    t % (channels as int),
                ),
        decreases len - slot,
    {
        if channel == 0 {
            phase = generator.next();
        }
        proof {
            lemma_fundamental_div_mod_converse_div(
                slot as int,
                channels as int,
                frame as int,
                channel as int,
            );
            lemma_fundamental_div_mod_converse_mod(
                slot as int,
                channels as int,
                frame as int,
                channel as int,
            );
            lemma_phase_after(start, rate, frame + 1);
        }
        output.set(slot, Slot { phase, gain: gain_at(&params.channels, channel) });
        slot = slot + 1;
        channel = channel + 1;
        if channel == channels {
            channel = 0;
            proof {
                assert((frame + 1) * channels == frame * channels + channels) by (nonlinear_arith);
                frame = frame + 1;
            }
        }
    }
    proof {
        lemma_phase_after(start, rate, frame);
        lemma_phase_after(start, rate, frame + 1);
        if channel == 0 {
            lemma_fundamental_div_mod_converse_div(
                len + channels - 1,
                channels as int,
                frame as int,
                channels - 1,
            );
        } else {
            assert((frame + 1) * channels == frame * channels + channels) by (nonlinear_arith);
            lemma_fundamental_div_mod_converse_div(
                len + channels - 1,
                channels as int,
                (frame + 1) as int,
                channel - 1,
            );
        }
    }
}

} // verus!
