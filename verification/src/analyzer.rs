//! Per-channel analysis of a captured window: the display window that starts
//! at the trigger, and the peak level.
//!
//! The root mean square is not computed here. It takes arithmetic on the
//! numbers themselves, which this crate leaves to its callers; they get the
//! channel's samples from [`channel_samples`](crate::window::channel_samples)
//! and put the level into the result.

use vstd::prelude::*;
use crate::scalar::Scalar;
use crate::scope::{ChannelView, ScopeChannel};
use crate::trigger::{find_trigger, trigger_of};
use crate::window::{channel_of, frame_count, frames_in, lemma_frame_in_window};

verus! {

/// The number of frames that a display window shows unless told otherwise.
pub const DISPLAY_LENGTH: usize = 512;

/// The number of frames that are captured for one analysis.
pub const WINDOW_FRAMES: usize = 4096;

/// The peak of a sequence of samples: the largest of their magnitudes, where
/// a sample that is no number counts for nothing, and zero for no samples.
pub open spec fn peak_of(samples: Seq<Scalar>) -> Scalar
    decreases samples.len(),
{
    if samples.len() == 0 {
        Scalar::zero()
    } else {
        let rest = peak_of(samples.drop_last());
        let here = samples.last().abs();
        if here.gt(rest) {
            here
        } else {
            rest
        }
    }
}

/// The number of frames in a display window: `length` of them from the
/// trigger on, or as many as the channel has left.
pub open spec fn display_len(frames: nat, trigger: nat, length: nat) -> nat {
    if trigger >= frames {
        0
    } else if length <= frames - trigger {
        length
    } else {
        (frames - trigger) as nat
    }
}

/// The display window of a channel: the samples from the trigger on, each
/// with its distance from the trigger in frames.
pub open spec fn display_of(channel: Seq<Scalar>, trigger: nat, length: nat) -> Seq<(usize, Scalar)> {
    Seq::new(
        display_len(channel.len(), trigger, length),
        |j: int| (j as usize, channel[trigger + j]),
    )
}

/// The analysis of one channel of a window, with the display window starting
/// at frame `trigger`: no label, no spectrum, the root mean square left at
/// zero.
pub open spec fn analysis_of(
    window: Seq<Scalar>,
    channel: int,
    stride: int,
    length: nat,
    trigger: nat,
) -> ChannelView {
    ChannelView {
        name: Seq::empty(),
        samples: display_of(channel_of(window, channel, stride), trigger, length),
        fft: Seq::empty(),
        rms: Scalar::zero(),
        peak: peak_of(channel_of(window, channel, stride)),
    }
}

/// The peak is a magnitude and a number; no sample that is a number exceeds
/// it; and it is zero or the magnitude of one of the samples.
pub proof fn lemma_peak_is_greatest(samples: Seq<Scalar>)
    ensures
        !peak_of(samples).sign_negative(),
        !peak_of(samples).is_nan(),
        forall|i: int|
            0 <= i < samples.len() && !(#[trigger] samples[i]).is_nan() ==> samples[i].magnitude()
                <= peak_of(samples).magnitude(),
        peak_of(samples) == Scalar::zero() || exists|i: int|
            0 <= i < samples.len() && !(#[trigger] samples[i]).is_nan() && samples[i].abs()
                == peak_of(samples),
    decreases samples.len(),
{
    if samples.len() > 0 {
        let front = samples.drop_last();
        lemma_peak_is_greatest(front);
        let rest = peak_of(front);
        let here = samples.last().abs();
        assert forall|i: int|
            0 <= i < samples.len() && !(#[trigger] samples[i]).is_nan() implies samples[i].magnitude()
            <= peak_of(samples).magnitude() by {
            if i < front.len() {
                assert(front[i] == samples[i]);
            }
        }
        if here.gt(rest) {
            assert(samples[samples.len() - 1].abs() == peak_of(samples));
        } else if rest != Scalar::zero() {
            let i = choose|i: int|
                0 <= i < front.len() && !(#[trigger] front[i]).is_nan() && front[i].abs() == rest;
            assert(samples[i] == front[i]);
        }
    }
}

/// A display window is never padded: it holds `length` frames, or fewer
/// where the channel ends before that.
pub proof fn lemma_display_len(channel: Seq<Scalar>, trigger: nat, length: nat)
    requires
        trigger <= channel.len(),
    ensures
        display_of(channel, trigger, length).len() == vstd::math::min(
            length as int,
            channel.len() - trigger,
        ),
{
}

/// Entry `j` of a channel's display window is the channel's sample of frame
/// `trigger + j` of the window.
pub proof fn lemma_display_frame(
    window: Seq<Scalar>,
    channel: int,
    stride: int,
    length: nat,
    trigger: nat,
    j: int,
)
    requires
        0 <= channel < stride,
        0 <= j < display_of(channel_of(window, channel, stride), trigger, length).len(),
    ensures
        trigger + j < frame_count(window.len(), stride as nat),
        display_of(channel_of(window, channel, stride), trigger, length)[j] == (
            j as usize,
            window[(trigger + j) * stride + channel],
        ),
{
}

/// The display windows of two channels of one window show the same frames:
/// they are of one length, and entry for entry at the same distance from the
/// trigger.
pub proof fn lemma_displays_align(
    window: Seq<Scalar>,
    stride: int,
    a: int,
    b: int,
    length: nat,
    trigger: nat,
)
    ensures
        display_of(channel_of(window, a, stride), trigger, length).len() == display_of(
            channel_of(window, b, stride),
            trigger,
            length,
        ).len(),
        forall|j: int|
            0 <= j < display_of(channel_of(window, a, stride), trigger, length).len() ==> (
            #[trigger] display_of(channel_of(window, a, stride), trigger, length)[j]).0
                == display_of(channel_of(window, b, stride), trigger, length)[j].0,
{
}

/// The peak of a sequence of samples.
pub fn peak(samples: &[Scalar]) -> (level: Scalar)
    ensures
        level == peak_of(samples@),
{
    let mut level = Scalar { bits: 0 };
    let mut i: usize = 0;
    while i < samples.len()
        invariant
            i <= samples@.len(),
            level == peak_of(samples@.take(i as int)),
        decreases samples@.len() - i,
    {
        proof {
            assert(samples@.take(i + 1).drop_last() == samples@.take(i as int));
        }
        let here = samples[i].abs();
        if here.gt(level) {
            level = here;
        }
        i = i + 1;
    }
    proof {
        assert(samples@.take(i as int) == samples@);
    }
    level
}

/// Analyses channel `ch` of a window of `ch_ct` channels to the frame. The
/// channel must be one of the `ch_ct`.
///
/// The result holds the display window of `display_length` frames from frame
/// `trigger_idx` on, cut short where the window ends, and the peak over the
/// whole window. It has no label and no spectrum, and its root mean square is
/// left at zero.
pub fn calc_scope_channel(
    buf: &[Scalar],
    ch: usize,
    ch_ct: usize,
    display_length: usize,
    trigger_idx: usize,
) -> (d: ScopeChannel)
    requires
        ch < ch_ct,
    ensures
        d@ == analysis_of(
            buf@,
            ch as int,
            ch_ct as int,
            display_length as nat,
            trigger_idx as nat,
        ),
        trigger_idx <= frame_count(buf@.len(), ch_ct as nat) ==> d.samples@.len() == vstd::math::min(
            display_length as int,
            frame_count(buf@.len(), ch_ct as nat) - trigger_idx,
        ),
{
    let mut d = ScopeChannel::new("");
    proof {
        reveal_strlit("");
    }
    let len: usize = buf.len();
    let frames = frames_in(len, ch_ct);
    let ghost channel = channel_of(buf@, ch as int, ch_ct as int);
    let mut i: usize = 0;
    while i < frames
        invariant
            ch < ch_ct,
            len == buf@.len(),
            frames == frame_count(buf@.len(), ch_ct as nat),
            channel == channel_of(buf@, ch as int, ch_ct as int),
            i <= frames,
            d.name@ == Seq::<char>::empty(),
            d.fft@ == Seq::<(Scalar, Scalar)>::empty(),
            d.rms == Scalar::zero(),
            d.peak == peak_of(channel.take(i as int)),
            d.samples@ == display_of(channel.take(i as int), trigger_idx as nat, display_length as nat),
        decreases frames - i,
    {
        proof {
            lemma_frame_in_window(len as int, ch_ct as int, i as int, ch as int);
            assert(channel.take(i + 1).drop_last() == channel.take(i as int));
        }
        let s: Scalar = buf[i * ch_ct + ch];
        let sm = s.abs();
        if sm.gt(d.peak) {
            d.peak = sm;
        }
        if i >= trigger_idx && i - trigger_idx < display_length {
            d.samples.push((i - trigger_idx, s));
        }
        proof {
            assert(d.samples@ =~= display_of(
                channel.take(i + 1),
                trigger_idx as nat,
                display_length as nat,
            ));
        }
        i = i + 1;
    }
    proof {
        assert(channel.take(i as int) == channel);
    }
    d
}

/// Analyses every channel of a window of `ch_ct` channels to the frame.
///
/// All display windows start at the trigger of channel zero, so that they
/// show the same stretch of time.
pub fn analyze_window(buf: &[Scalar], ch_ct: usize, display_length: usize) -> (results: Vec<
    ScopeChannel,
>)
    ensures
        results@.len() == ch_ct,
        forall|c: int|
            0 <= c < ch_ct ==> (#[trigger] results@[c])@ == analysis_of(
                buf@,
                c,
                ch_ct as int,
                display_length as nat,
                trigger_of(channel_of(buf@, 0, ch_ct as int)) as nat,
            ),
{
    let mut results: Vec<ScopeChannel> = Vec::new();
    if ch_ct == 0 {
        return results;
    }
    let trigger_idx = find_trigger(buf, 0, ch_ct);
    let mut ch: usize = 0;
    while ch < ch_ct
        invariant
            ch <= ch_ct,
            trigger_idx == trigger_of(channel_of(buf@, 0, ch_ct as int)),
            results@.len() == ch,
            forall|c: int|
                0 <= c < ch ==> (#[trigger] results@[c])@ == analysis_of(
                    buf@,
                    c,
                    ch_ct as int,
                    display_length as nat,
                    trigger_idx as nat,
                ),
        decreases ch_ct - ch,
    {
        results.push(calc_scope_channel(buf, ch, ch_ct, display_length, trigger_idx));
        ch = ch + 1;
    }
    results
}

} // verus!
