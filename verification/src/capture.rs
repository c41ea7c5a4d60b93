//! The capture queue: a bounded first-in first-out buffer of samples between
//! the input callback and the analysis task.
//!
//! The callback pushes the samples of the selected channels, frame by frame,
//! and never waits: a sample that finds the queue full is dropped, and the
//! push reports an overrun. The analysis task takes whole frames out, and
//! only when a whole frame is there.
//!
//! A [`CaptureBuffer`] has one owner. Where two tasks share one, the lock
//! around it is theirs to hold, and the callback's side must not wait for it.

use vstd::prelude::*;
use vstd::arithmetic::div_mod::lemma_fundamental_div_mod_converse_div;
use vstd::arithmetic::div_mod::lemma_fundamental_div_mod_converse_mod;
use crate::ring::{
    ring_capacity, ring_items, ring_new, ring_occupied_len, ring_pop_slice, ring_try_push,
    SampleRing,
};
use crate::scalar::Scalar;
use crate::window::{frame_count, frames_in, lemma_frame_in_window};

verus! {

/// The samples that a sequence of bit patterns stands for.
pub open spec fn samples_of(bits: Seq<u32>) -> Seq<Scalar> {
    Seq::new(bits.len(), |i: int| Scalar { bits: bits[i] })
}

/// The samples of the selected channels of a window, frame by frame, and
/// within a frame in the order of the selection.
pub open spec fn selected(data: Seq<Scalar>, stride: int, channels: Seq<u8>) -> Seq<Scalar> {
    Seq::new(
        frame_count(data.len(), stride as nat) * channels.len(),
        |k: int| data[(k / (channels.len() as int)) * stride + channels[k % (channels.len() as int)]],
    )
}

/// What a queue holds after `items` were pushed one by one: those that found
/// room behind what it held, in their order.
pub open spec fn after_push(held: Seq<Scalar>, capacity: nat, items: Seq<Scalar>) -> Seq<Scalar> {
    if held.len() + items.len() <= capacity {
        held + items
    } else {
        held + items.take(capacity - held.len())
    }
}

/// Whether pushing `pushed` samples into a queue that holds `held` drops any
/// of them.
pub open spec fn overruns(held: nat, capacity: nat, pushed: nat) -> bool {
    held + pushed > capacity
}

/// Pushing more samples than a queue has room for, and so pushing more than
/// its capacity, is an overrun and leaves the queue full: it holds what it
/// held, and behind that as many of the new samples as its capacity allows.
pub proof fn lemma_overfilled_is_full(held: Seq<Scalar>, capacity: nat, items: Seq<Scalar>)
    requires
        held.len() <= capacity,
        items.len() > capacity - held.len(),
    ensures
        overruns(held.len(), capacity, items.len()),
        after_push(held, capacity, items).len() == capacity,
        after_push(held, capacity, items) == held + items.take(capacity - held.len()),
{
}

/// The number of frames that a drain takes out of a queue of `held` samples:
/// one after another for as long as the window has fewer than `target`
/// samples and the queue holds a whole frame. Each frame adds `picks` samples
/// to the window.
pub open spec fn frames_due(held: nat, frame_len: nat, have: nat, picks: nat, target: nat) -> nat
    decreases held,
{
    if frame_len == 0 || have >= target || held < frame_len {
        0
    } else {
        1 + frames_due((held - frame_len) as nat, frame_len, have + picks, picks, target)
    }
}

/// The capture queue.
pub struct CaptureBuffer {
    ring: SampleRing,
}

impl CaptureBuffer {
    #[verifier::type_invariant]
    spec fn fits(self) -> bool {
        ring_items(self.ring).len() <= ring_capacity(self.ring)
    }

    /// The samples in the queue, oldest first.
    pub closed spec fn view(&self) -> Seq<Scalar> {
        samples_of(ring_items(self.ring))
    }

    /// The number of samples that the queue has room for.
    pub closed spec fn capacity(&self) -> nat {
        ring_capacity(self.ring)
    }

    /// An empty queue with room for `capacity` samples. The capacity must
    /// not be zero, and no more than can be allocated.
    pub fn new(capacity: usize) -> (buffer: CaptureBuffer)
        requires
            0 < capacity,
            capacity * 4 <= isize::MAX,
        ensures
            buffer@ == Seq::<Scalar>::empty(),
            buffer.capacity() == capacity,
    {
        CaptureBuffer { ring: ring_new(capacity) }
    }

    /// The number of samples in the queue.
    pub fn occupied_len(&self) -> (n: usize)
        ensures
            n == self@.len(),
            n <= self.capacity(),
    {
        ring_occupied_len(&self.ring)
    }

    /// Appends a sample unless the queue is full, and says whether it did.
    pub fn try_push(&mut self, sample: Scalar) -> (pushed: bool)
        ensures
            final(self).capacity() == old(self).capacity(),
            pushed == (old(self)@.len() < old(self).capacity()),
            final(self)@ == if pushed {
                old(self)@.push(sample)
            } else {
                old(self)@
            },
            final(self)@.len() <= final(self).capacity(),
    {
        proof {
            use_type_invariant(&*self);
        }
        ring_try_push(&mut self.ring, sample.bits)
    }

    /// Pushes the samples of the selected channels of each whole frame of
    /// `data`, frame by frame, and reports an overrun: whether any sample
    /// found the queue full and was dropped. A frame has `channel_ct`
    /// samples, and every selected channel must be one of them.
    pub fn push_frames(&mut self, data: &[Scalar], channel_ct: usize, channels: &Vec<u8>) -> (overrun:
        bool)
        requires
            forall|c: int| 0 <= c < channels@.len() ==> (#[trigger] channels@[c]) < channel_ct,
        ensures
            final(self).capacity() == old(self).capacity(),
            final(self)@ == after_push(
                old(self)@,
                old(self).capacity(),
                selected(data@, channel_ct as int, channels@),
            ),
            overrun == overruns(
                old(self)@.len(),
                old(self).capacity(),
                selected(data@, channel_ct as int, channels@).len(),
            ),
    {
        proof {
            use_type_invariant(&*self);
        }
        let picks: usize = channels.len();
        if picks == 0 {
            return false;
        }
        proof {
            assert(channels@[0] < channel_ct);
        }
        let len: usize = data.len();
        let frames: usize = frames_in(len, channel_ct);
        let ghost wanted = selected(data@, channel_ct as int, channels@);
        let ghost room = old(self).capacity() - old(self)@.len();
        let ghost done: int = 0;
        let mut overrun = false;
        let mut frame: usize = 0;
        while frame < frames
            invariant
                picks == channels@.len(),
                picks > 0,
                channel_ct > 0,
                len == data@.len(),
                frames == frame_count(data@.len(), channel_ct as nat),
                forall|c: int| 0 <= c < channels@.len() ==> (#[trigger] channels@[c]) < channel_ct,
                wanted == selected(data@, channel_ct as int, channels@),
                room == old(self).capacity() - old(self)@.len(),
                room >= 0,
                frame <= frames,
                done == frame * picks,
                self.capacity() == old(self).capacity(),
                self@ == old(self)@ + wanted.take(vstd::math::min(done, room)),
                overrun == (done > room),
            decreases frames - frame,
        {
            let mut pick: usize = 0;
            while pick < picks
                invariant
                    picks == channels@.len(),
                    channel_ct > 0,
                    len == data@.len(),
                    frames == frame_count(data@.len(), channel_ct as nat),
                    forall|c: int|
                        0 <= c < channels@.len() ==> (#[trigger] channels@[c]) < channel_ct,
                    wanted == selected(data@, channel_ct as int, channels@),
                    room == old(self).capacity() - old(self)@.len(),
                    room >= 0,
                    frame < frames,
                    pick <= picks,
                    done == frame * picks + pick,
                    self.capacity() == old(self).capacity(),
                    self@ == old(self)@ + wanted.take(vstd::math::min(done, room)),
                    overrun == (done > room),
                decreases picks - pick,
            {
                let channel: usize = channels[pick] as usize;
                proof {
                    lemma_frame_in_window(len as int, channel_ct as int, frame as int, channel as int);
                    lemma_fundamental_div_mod_converse_div(done, picks as int, frame as int, pick as int);
                    lemma_fundamental_div_mod_converse_mod(done, picks as int, frame as int, pick as int);
                    assert(done < frames * picks) by (nonlinear_arith)
                        requires
                            done == frame * picks + pick,
                            pick < picks,
                            frame < frames,
                    ;
                }
                let sample: Scalar = data[frame * channel_ct + channel];
                if !self.try_push(sample) {
                    overrun = true;
                }
                proof {
                    if done < room {
                        assert(wanted.take(done + 1) == wanted.take(done).push(sample));
                    }
                    done = done + 1;
                }
                pick = pick + 1;
            }
            proof {
                assert((frame + 1) * picks == frame * picks + picks) by (nonlinear_arith);
            }
            frame = frame + 1;
        }
        overrun
    }

    /// Takes the `frame_len` oldest samples out of the queue, if it holds as
    /// many. A queue that holds fewer is left as it is.
    pub fn pop_frame(&mut self, frame_len: usize) -> (frame: Option<Vec<Scalar>>)
        ensures
            final(self).capacity() == old(self).capacity(),
            match frame {
                Some(samples) => frame_len <= old(self)@.len() && samples@ == old(self)@.take(
                    frame_len as int,
                ) && final(self)@ == old(self)@.skip(frame_len as int),
                None => frame_len > old(self)@.len() && final(self)@ == old(self)@,
            },
    {
        proof {
            use_type_invariant(&*self);
        }
        if ring_occupied_len(&self.ring) < frame_len {
            return None;
        }
        let mut raw: Vec<u32> = Vec::new();
        let mut i: usize = 0;
        while i < frame_len
            invariant
                i <= frame_len,
                raw@.len() == i,
            decreases frame_len - i,
        {
            raw.push(0);
            i = i + 1;
        }
        let count: usize = ring_pop_slice(&mut self.ring, &mut raw);
        let mut samples: Vec<Scalar> = Vec::new();
        let mut i: usize = 0;
        while i < frame_len
            invariant
                i <= frame_len,
                raw@.len() == frame_len,
                samples@.len() == i,
                forall|j: int| 0 <= j < i ==> (#[trigger] samples@[j]).bits == raw@[j],
            decreases frame_len - i,
        {
            samples.push(Scalar { bits: raw[i] });
            i = i + 1;
        }
        Some(samples)
    }

    /// An empty queue with room for what the selected channels deliver in
    /// one second, or `None` where that is nothing or more than can be
    /// allocated.
    pub fn for_one_second(sample_rate: u32, channels: usize) -> (buffer: Option<CaptureBuffer>)
        ensures
            match buffer {
                Some(b) => 0 < sample_rate * channels && sample_rate * channels * 4 <= isize::MAX
                    && b@ == Seq::<Scalar>::empty() && b.capacity() == sample_rate * channels,
                None => sample_rate * channels == 0 || sample_rate * channels * 4 > isize::MAX,
            },
    {
        match (sample_rate as usize).checked_mul(channels) {
            Some(capacity) => {
                if capacity == 0 || capacity > usize::MAX / 8 {
                    None
                } else {
                    Some(CaptureBuffer::new(capacity))
                }
            },
            None => None,
        }
    }

    /// Moves whole frames from the queue into a window until the window has
    /// `target` samples or the queue holds no whole frame, and says whether
    /// the window has `target` samples now.
    ///
    /// A frame is the `frame_len` oldest samples of the queue. Of each frame
    /// the window gets the samples at the positions `picks`, in that order;
    /// every pick must be a position within the frame.
    pub fn drain_into(
        &mut self,
        window: &mut Vec<Scalar>,
        target: usize,
        frame_len: usize,
        picks: &Vec<u8>,
    ) -> (full: bool)
        requires
            forall|p: int| 0 <= p < picks@.len() ==> (#[trigger] picks@[p]) < frame_len,
        ensures
            final(self).capacity() == old(self).capacity(),
            ({
                let frames = frames_due(
                    old(self)@.len(),
                    frame_len as nat,
                    old(window)@.len(),
                    picks@.len(),
                    target as nat,
                );
                &&& frames * frame_len <= old(self)@.len()
                &&& final(self)@ == old(self)@.skip(frames * frame_len)
                &&& final(window)@ == old(window)@ + selected(
                    old(self)@.take(frames * frame_len),
                    frame_len as int,
                    picks@,
                )
            }),
            full == (final(window)@.len() >= target),
    {
        let ghost held = self@;
        let ghost had = window@;
        let ghost taken: int = 0;
        proof {
            if frame_len > 0 {
                assert(0int / (frame_len as int) == 0) by (nonlinear_arith)
                    requires
                        frame_len > 0,
                ;
            }
            assert(0 * picks@.len() == 0);
        }
        if frame_len == 0 {
            return window.len() >= target;
        }
        while window.len() < target
            invariant
                frame_len > 0,
                forall|p: int| 0 <= p < picks@.len() ==> (#[trigger] picks@[p]) < frame_len,
                self.capacity() == old(self).capacity(),
                held == old(self)@,
                had == old(window)@,
                taken >= 0,
                taken * frame_len <= held.len(),
                self@ == held.skip(taken * frame_len),
                window@ == had + selected(held.take(taken * frame_len), frame_len as int, picks@),
                frames_due(held.len(), frame_len as nat, had.len(), picks@.len(), target as nat)
                    == taken + frames_due(
                    self@.len(),
                    frame_len as nat,
                    window@.len(),
                    picks@.len(),
                    target as nat,
                ),
            decreases self@.len(),
        {
            let ghost before = window@;
            let frame = match self.pop_frame(frame_len) {
                Some(frame) => frame,
                None => {
                    return false;
                },
            };
            let mut p: usize = 0;
            while p < picks.len()
                invariant
                    p <= picks@.len(),
                    frame@.len() == frame_len,
                    forall|q: int| 0 <= q < picks@.len() ==> (#[trigger] picks@[q]) < frame_len,
                    window@ == before + Seq::new(p as nat, |q: int| frame@[picks@[q] as int]),
                decreases picks@.len() - p,
            {
                window.push(frame[picks[p] as usize]);
                proof {
                    assert(window@ =~= before + Seq::new(
                        (p + 1) as nat,
                        |q: int| frame@[picks@[q] as int],
                    ));
                }
                p = p + 1;
            }
            proof {
                assert((taken + 1) * frame_len == taken * frame_len + frame_len) by (nonlinear_arith);
                lemma_drained_frame(held, taken, frame_len as int, picks@, frame@);
                taken = taken + 1;
            }
        }
        true
    }
}

/// Taking one more frame out of a queue adds the picked samples of that frame
/// to what was picked from the frames before it.
proof fn lemma_drained_frame(
    held: Seq<Scalar>,
    taken: int,
    frame_len: int,
    picks: Seq<u8>,
    frame: Seq<Scalar>,
)
    requires
        taken >= 0,
        frame_len > 0,
        (taken + 1) * frame_len <= held.len(),
        frame == held.skip(taken * frame_len).take(frame_len),
        forall|p: int| 0 <= p < picks.len() ==> (#[trigger] picks[p]) < frame_len,
    ensures
        selected(held.take((taken + 1) * frame_len), frame_len, picks) == selected(
            held.take(taken * frame_len),
            frame_len,
            picks,
        ) + Seq::new(picks.len(), |q: int| frame[picks[q] as int]),
{
    let fl = frame_len;
    let np = picks.len() as int;
    let more = held.take((taken + 1) * frame_len);
    let less = held.take(taken * frame_len);
    let tail = Seq::new(picks.len(), |q: int| frame[picks[q] as int]);
    assert((taken + 1) * fl == taken * fl + fl) by (nonlinear_arith);
    vstd::arithmetic::div_mod::lemma_div_by_multiple(taken, fl);
    vstd::arithmetic::div_mod::lemma_div_by_multiple(taken + 1, fl);
    assert(taken * fl >= 0) by (nonlinear_arith)
        requires
            taken >= 0,
            fl > 0,
    ;
    assert((taken + 1) * np == taken * np + np) by (nonlinear_arith);
    let left = selected(more, fl, picks);
    let right = selected(less, fl, picks) + tail;
    assert forall|k: int| 0 <= k < left.len() implies left[k] == right[k] by {
        let f = k / np;
        let c = k % np;
        vstd::arithmetic::div_mod::lemma_fundamental_div_mod(k, np);
        if k < taken * np {
            assert(f < taken) by (nonlinear_arith)
                requires
                    k == np * f + c,
                    0 <= c,
                    k < taken * np,
                    np > 0,
            ;
            assert(0 <= f) by (nonlinear_arith)
                requires
                    k == np * f + c,
                    c < np,
                    0 <= k,
                    np > 0,
            ;
            assert(0 <= f * fl + picks[c] < taken * fl) by (nonlinear_arith)
                requires
                    0 <= f < taken,
                    0 <= picks[c] < fl,
            ;
        } else {
            let q = k - taken * np;
            vstd::arithmetic::div_mod::lemma_fundamental_div_mod_converse_div(k, np, taken, q);
            vstd::arithmetic::div_mod::lemma_fundamental_div_mod_converse_mod(k, np, taken, q);
            assert(right[k] == tail[q]);
            assert(frame[picks[q] as int] == held[taken * fl + picks[q]]);
        }
    }
}

} // verus!
