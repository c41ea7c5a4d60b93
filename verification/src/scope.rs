//! What the scope shows: for each channel its latest display window and
//! levels.
//!
//! The analysis task publishes a fresh [`ScopeChannel`] for each channel in
//! every cycle; whoever draws the scope reads a snapshot whenever it is due.
//! A [`Scope`] is plain data. Where two tasks share one, the lock around it
//! is theirs to hold, for the length of one call.

use vstd::prelude::*;
use crate::scalar::Scalar;

verus! {

/// The latest analysis of one channel.
#[derive(Debug)]
pub struct ScopeChannel {
    /// The channel's label.
    pub name: String,
    /// The display window: for each frame shown, its distance from the
    /// trigger in frames, and its sample.
    pub samples: Vec<(usize, Scalar)>,
    /// A spectrum, as pairs of frequency and level.
    pub fft: Vec<(Scalar, Scalar)>,
    /// The root mean square over the whole captured window.
    pub rms: Scalar,
    /// The largest magnitude in the whole captured window.
    pub peak: Scalar,
}

/// A [`ScopeChannel`] with its label and sequences as mathematical values.
pub struct ChannelView {
    pub name: Seq<char>,
    pub samples: Seq<(usize, Scalar)>,
    pub fft: Seq<(Scalar, Scalar)>,
    pub rms: Scalar,
    pub peak: Scalar,
}

impl View for ScopeChannel {
    type V = ChannelView;

    open spec fn view(&self) -> ChannelView {
        ChannelView {
            name: self.name@,
            samples: self.samples@,
            fft: self.fft@,
            rms: self.rms,
            peak: self.peak,
        }
    }
}

/// The channel that nothing has been published for yet.
pub open spec fn blank_channel(name: Seq<char>) -> ChannelView {
    ChannelView {
        name,
        samples: Seq::empty(),
        fft: Seq::empty(),
        rms: Scalar::zero(),
        peak: Scalar::zero(),
    }
}

/// A copy of a sequence of pairs.
fn copy_pairs<A: Copy, B: Copy>(pairs: &Vec<(A, B)>) -> (copy: Vec<(A, B)>)
    ensures
        copy@ == pairs@,
{
    let mut copy: Vec<(A, B)> = Vec::new();
    let mut i: usize = 0;
    while i < pairs.len()
        invariant
            i <= pairs@.len(),
            copy@ == pairs@.take(i as int),
        decreases pairs@.len() - i,
    {
        copy.push(pairs[i]);
        i = i + 1;
    }
    copy
}

impl ScopeChannel {
    /// A channel with a label and nothing to show: no samples, levels zero.
    pub fn new(name: &str) -> (channel: ScopeChannel)
        ensures
            channel@ == blank_channel(name@),
    {
        ScopeChannel {
            name: name.to_owned(),
            samples: Vec::new(),
            fft: Vec::new(),
            rms: Scalar { bits: 0 },
            peak: Scalar { bits: 0 },
        }
    }

    /// A copy of the channel as it stands.
    pub fn snapshot(&self) -> (copy: ScopeChannel)
        ensures
            copy@ == self@,
    {
        ScopeChannel {
            name: self.name.clone(),
            samples: copy_pairs(&self.samples),
            fft: copy_pairs(&self.fft),
            rms: self.rms,
            peak: self.peak,
        }
    }
}

/// The channels of a scope, by index.
#[derive(Debug)]
pub struct Scope {
    pub data: Vec<ScopeChannel>,
}

impl View for Scope {
    type V = Seq<ChannelView>;

    open spec fn view(&self) -> Seq<ChannelView> {
        Seq::new(self.data@.len(), |i: int| self.data@[i]@)
    }
}

impl Default for Scope {
    /// A scope without channels.
    fn default() -> (scope: Scope)
        ensures
            scope@ == Seq::<ChannelView>::empty(),
    {
        Scope::new()
    }
}

impl Scope {
    /// A scope without channels.
    pub fn new() -> (scope: Scope)
        ensures
            scope@ == Seq::<ChannelView>::empty(),
    {
        Scope { data: Vec::new() }
    }

    /// The number of channels.
    pub fn len(&self) -> (n: usize)
        ensures
            n == self@.len(),
    {
        self.data.len()
    }

    /// Adds a channel after those that are there.
    pub fn push(&mut self, channel: ScopeChannel)
        ensures
            final(self)@ == old(self)@.push(channel@),
    {
        self.data.push(channel);
    }

    /// Puts a new analysis in the place of a channel's last one. The other
    /// channels stay as they are. The channel must be one of the scope's.
    pub fn publish(&mut self, channel_index: usize, result: ScopeChannel)
        requires
            channel_index < old(self)@.len(),
        ensures
            final(self)@ == old(self)@.update(channel_index as int, result@),
    {
        self.data.set(channel_index, result);
    }

    /// A copy of a channel's latest analysis. The channel must be one of the
    /// scope's.
    pub fn read(&self, channel_index: usize) -> (snapshot: ScopeChannel)
        requires
            channel_index < self@.len(),
        ensures
            snapshot@ == self@[channel_index as int],
    {
        self.data[channel_index].snapshot()
    }
}

} // verus!
