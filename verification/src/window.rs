//! Captured windows: samples laid out frame after frame, one sample for each
//! channel of a frame.
//!
//! A window of `len` samples with `stride` channels to the frame holds
//! `len / stride` whole frames; samples after the last whole frame belong to
//! no frame and are never read.

use vstd::prelude::*;
use crate::scalar::Scalar;

verus! {

/// The number of whole frames in a window.
pub open spec fn frame_count(len: nat, stride: nat) -> nat {
    if stride == 0 {
        0
    } else {
        len / stride
    }
}

/// One channel of a window: of each whole frame, the sample at `channel`.
pub open spec fn channel_of(window: Seq<Scalar>, channel: int, stride: int) -> Seq<Scalar> {
    Seq::new(
        frame_count(window.len(), stride as nat),
        |frame: int| window[frame * stride + channel],
    )
}

/// Every channel of every whole frame lies within the window.
pub proof fn lemma_frame_in_window(len: int, stride: int, frame: int, channel: int)
    requires
        0 <= len,
        0 < stride,
        0 <= channel < stride,
        0 <= frame < len / stride,
    ensures
        0 <= frame * stride,
        frame * stride + channel < len,
{
    vstd::arithmetic::div_mod::lemma_fundamental_div_mod(len, stride);
    let whole = len / stride;
    assert(len % stride >= 0) by (nonlinear_arith)
        requires
            0 <= len,
            0 < stride,
    ;
    assert(frame * stride + channel < stride * whole && 0 <= frame * stride)
        by (nonlinear_arith)
        requires
            0 <= frame < whole,
            0 <= channel < stride,
    ;
}

/// The number of whole frames in a window of `len` samples. A frame must
/// have a channel at least.
pub fn frames_in(len: usize, stride: usize) -> (frames: usize)
    requires
        stride > 0,
    ensures
        frames == frame_count(len as nat, stride as nat),
{
    len / stride
}

/// Takes one channel out of a window: of each whole frame, the sample at
/// `ch`, in the order of the frames. The channel must be one of the `ch_ct`
/// of a frame.
pub fn channel_samples(buf: &[Scalar], ch: usize, ch_ct: usize) -> (samples: Vec<Scalar>)
    requires
        ch < ch_ct,
    ensures
        samples@ == channel_of(buf@, ch as int, ch_ct as int),
{
    let len: usize = buf.len();
    let frames = frames_in(len, ch_ct);
    let mut samples: Vec<Scalar> = Vec::new();
    let mut frame: usize = 0;
    while frame < frames
        invariant
            ch < ch_ct,
            len == buf@.len(),
            frames == frame_count(buf@.len(), ch_ct as nat),
            frame <= frames,
            samples@.len() == frame,
            forall|j: int| 0 <= j < frame ==> #[trigger] samples@[j] == buf@[j * ch_ct + ch],
        decreases frames - frame,
    {
        proof {
            lemma_frame_in_window(buf@.len() as int, ch_ct as int, frame as int, ch as int);
        }
        samples.push(buf[frame * ch_ct + ch]);
        frame = frame + 1;
    }
    samples
}

} // verus!
