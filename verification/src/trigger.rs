//! The trigger: where a waveform first rises through zero.
//!
//! Display windows of all channels start at the trigger of one reference
//! channel, so that a periodic signal stands still from one window to the
//! next.

use vstd::prelude::*;
use crate::scalar::Scalar;
use crate::window::{channel_of, frame_count, frames_in, lemma_frame_in_window};

verus! {

/// Whether a channel rises through zero at frame `k`: the sample before it is
/// zero or below, and the sample at `k` is above zero.
pub open spec fn rising_at(channel: Seq<Scalar>, k: int) -> bool {
    1 <= k < channel.len() && channel[k - 1].is_non_positive() && channel[k].is_positive()
}

/// Whether `r` is the trigger of a channel: the first frame at which it rises
/// through zero, or zero where it never does.
pub open spec fn is_trigger(channel: Seq<Scalar>, r: int) -> bool {
    if exists|k: int| rising_at(channel, k) {
        rising_at(channel, r) && forall|j: int| 0 <= j < r ==> !rising_at(channel, j)
    } else {
        r == 0
    }
}

/// The trigger of a channel.
pub open spec fn trigger_of(channel: Seq<Scalar>) -> int {
    choose|r: int| is_trigger(channel, r)
}

/// A channel has one trigger only.
pub proof fn lemma_trigger_is_unique(channel: Seq<Scalar>, a: int, b: int)
    requires
        is_trigger(channel, a),
        is_trigger(channel, b),
    ensures
        a == b,
{
}

/// The trigger of a channel whose samples are all zero or below is frame
/// zero.
pub proof fn lemma_trigger_of_quiet_channel(channel: Seq<Scalar>)
    requires
        forall|i: int| 0 <= i < channel.len() ==> (#[trigger] channel[i]).is_non_positive(),
    ensures
        trigger_of(channel) == 0,
{
    assert forall|k: int| !rising_at(channel, k) by {
        if 1 <= k < channel.len() {
            assert(channel[k].is_non_positive());
        }
    }
    assert(is_trigger(channel, 0));
}

/// Where a channel rises through zero at frame `k` and at no frame before it,
/// its trigger is `k`.
pub proof fn lemma_trigger_at_first_crossing(channel: Seq<Scalar>, k: int)
    requires
        rising_at(channel, k),
        forall|j: int| 0 <= j < k ==> !rising_at(channel, j),
    ensures
        trigger_of(channel) == k,
{
    assert(is_trigger(channel, k));
}

/// Finds the trigger of channel `trigger_ch` in a window of `ch_ct` channels
/// to the frame. The channel must be one of the `ch_ct`.
///
/// A window without a whole frame has the trigger zero, as has every window
/// in which the channel never rises through zero.
pub fn find_trigger(buf: &[Scalar], trigger_ch: usize, ch_ct: usize) -> (r: usize)
    requires
        trigger_ch < ch_ct,
    ensures
        r == trigger_of(channel_of(buf@, trigger_ch as int, ch_ct as int)),
        is_trigger(channel_of(buf@, trigger_ch as int, ch_ct as int), r as int),
        r == 0 || r < frame_count(buf@.len(), ch_ct as nat),
{
    let len: usize = buf.len();
    let frames = frames_in(len, ch_ct);
    let ghost channel = channel_of(buf@, trigger_ch as int, ch_ct as int);
    if frames == 0 {
        assert(is_trigger(channel, 0));
        return 0;
    }
    proof {
        lemma_frame_in_window(buf@.len() as int, ch_ct as int, 0, trigger_ch as int);
    }
    let mut prev: Scalar = buf[trigger_ch];
    let mut i: usize = 1;
    while i < frames
        invariant
            trigger_ch < ch_ct,
            len == buf@.len(),
            frames == frame_count(buf@.len(), ch_ct as nat),
            channel == channel_of(buf@, trigger_ch as int, ch_ct as int),
            1 <= i <= frames,
            prev == channel[i - 1],
            forall|j: int| 0 <= j < i ==> !rising_at(channel, j),
        decreases frames - i,
    {
        proof {
            lemma_frame_in_window(buf@.len() as int, ch_ct as int, i as int, trigger_ch as int);
        }
        let s: Scalar = buf[i * ch_ct + trigger_ch];
        if prev.is_non_positive() && s.is_positive() {
            assert(rising_at(channel, i as int));
            assert(is_trigger(channel, i as int));
            return i;
        }
        prev = s;
        i = i + 1;
    }
    assert(is_trigger(channel, 0));
    0
}

} // verus!
