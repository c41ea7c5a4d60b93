//! Gain routes: one gain per hardware channel, by which a tone is scaled on
//! its way to that channel.
//!
//! A route may be shorter than the hardware has channels. The channels past
//! its end get silence.

use vstd::prelude::*;
use crate::scalar::{Scalar, ONE_BITS};

verus! {

/// The length of the route for a list of channel numbers: one more than the
/// largest of them, and zero for an empty list.
pub open spec fn route_len(listed: Seq<u8>) -> nat
    decreases listed.len(),
{
    if listed.len() == 0 {
        0
    } else {
        let rest = route_len(listed.drop_last());
        let here = listed.last() as nat + 1;
        if here > rest {
            here
        } else {
            rest
        }
    }
}

/// Whether a channel number occurs in a list of them.
pub open spec fn is_listed(listed: Seq<u8>, channel: int) -> bool {
    exists|k: int| 0 <= k < listed.len() && #[trigger] listed[k] == channel
}

/// The route for a list of channel numbers: gain one on every listed
/// channel, gain zero on the others, up to the largest channel listed.
pub open spec fn route_of(listed: Seq<u8>) -> Seq<Scalar> {
    Seq::new(
        route_len(listed),
        |i: int|
            if is_listed(listed, i) {
                Scalar::one()
            } else {
                Scalar::zero()
            },
    )
}

/// The route that sends a tone to every one of `channels` hardware channels.
pub open spec fn full_route(channels: nat) -> Seq<Scalar> {
    Seq::new(channels, |i: int| Scalar::one())
}

/// The gain of a route on hardware channel `channel`, `None` standing for
/// silence.
pub open spec fn gain_on(route: Seq<Scalar>, channel: int) -> Option<Scalar> {
    if 0 <= channel < route.len() {
        Some(route[channel])
    } else {
        None
    }
}

/// A route reaches every listed channel, and ends right after the largest.
pub proof fn lemma_route_len_is_largest(listed: Seq<u8>)
    ensures
        forall|k: int| 0 <= k < listed.len() ==> (#[trigger] listed[k]) < route_len(listed),
        listed.len() > 0 ==> exists|k: int|
            0 <= k < listed.len() && (#[trigger] listed[k]) + 1 == route_len(listed),
        route_len(listed) <= 256,
    decreases listed.len(),
{
    if listed.len() > 0 {
        let front = listed.drop_last();
        lemma_route_len_is_largest(front);
        assert forall|k: int| 0 <= k < listed.len() implies (#[trigger] listed[k]) < route_len(
            listed,
        ) by {
            if k < front.len() {
                assert(front[k] == listed[k]);
            }
        }
        if listed.last() as nat + 1 > route_len(front) {
            assert(listed[listed.len() - 1] + 1 == route_len(listed));
        } else {
            let k = choose|k: int| 0 <= k < front.len() && (#[trigger] front[k]) + 1 == route_len(front);
            assert(listed[k] == front[k]);
        }
    }
}

/// Builds the route for a list of channel numbers, which may come in any
/// order and may repeat.
pub fn gain_route(listed: &Vec<u8>) -> (route: Vec<Scalar>)
    ensures
        route@ == route_of(listed@),
{
    let mut len: usize = 0;
    let mut k: usize = 0;
    while k < listed.len()
        invariant
            k <= listed@.len(),
            len == route_len(listed@.take(k as int)),
            len <= 256,
        decreases listed@.len() - k,
    {
        proof {
            assert(listed@.take(k + 1).drop_last() == listed@.take(k as int));
        }
        let here: usize = listed[k] as usize + 1;
        if here > len {
            len = here;
        }
        k = k + 1;
    }
    proof {
        assert(listed@.take(k as int) == listed@);
    }
    let mut route: Vec<Scalar> = Vec::new();
    let mut i: usize = 0;
    while i < len
        invariant
            i <= len,
            route@.len() == i,
            forall|j: int| 0 <= j < i ==> #[trigger] route@[j] == Scalar::zero(),
        decreases len - i,
    {
        route.push(Scalar { bits: 0 });
        i = i + 1;
    }
    proof {
        lemma_route_len_is_largest(listed@);
    }
    let mut k: usize = 0;
    while k < listed.len()
        invariant
            k <= listed@.len(),
            route@.len() == len,
            len == route_len(listed@),
            forall|m: int| 0 <= m < listed@.len() ==> (#[trigger] listed@[m]) < len,
            forall|j: int|
                0 <= j < len ==> #[trigger] route@[j] == if is_listed(listed@.take(k as int), j) {
                    Scalar::one()
                } else {
                    Scalar::zero()
                },
        decreases listed@.len() - k,
    {
        let channel: usize = listed[k] as usize;
        route.set(channel, Scalar { bits: ONE_BITS });
        proof {
            let before = listed@.take(k as int);
            let after = listed@.take(k + 1);
            assert(after == before.push(listed@[k as int]));
            assert forall|j: int| 0 <= j < len implies #[trigger] route@[j] == if is_listed(
                after,
                j,
            ) {
                Scalar::one()
            } else {
                Scalar::zero()
            } by {
                if j == channel {
                    assert(after[k as int] == j);
                } else if is_listed(before, j) {
                    let m = choose|m: int| 0 <= m < before.len() && #[trigger] before[m] == j;
                    assert(after[m] == j);
                } else if is_listed(after, j) {
                    let m = choose|m: int| 0 <= m < after.len() && #[trigger] after[m] == j;
                    assert(before[m] == j);
                }
            }
        }
        k = k + 1;
    }
    proof {
        assert(listed@.take(k as int) == listed@);
    }
    route
}

/// The route that sends a tone to every hardware channel.
pub fn all_channels(channels: usize) -> (route: Vec<Scalar>)
    ensures
        route@ == full_route(channels as nat),
{
    let mut route: Vec<Scalar> = Vec::new();
    let mut i: usize = 0;
    while i < channels
        invariant
            i <= channels,
            route@.len() == i,
            forall|j: int| 0 <= j < i ==> #[trigger] route@[j] == Scalar::one(),
        decreases channels - i,
    {
        route.push(Scalar { bits: ONE_BITS });
        i = i + 1;
    }
    route
}

/// The gain of a route on one hardware channel: the route's entry for it, or
/// `None`, which stands for silence, where the route has none.
pub fn gain_at(route: &Vec<Scalar>, channel: usize) -> (gain: Option<Scalar>)
    ensures
        gain == gain_on(route@, channel as int),
{
    if channel < route.len() {
        Some(route[channel])
    } else {
        None
    }
}

} // verus!
