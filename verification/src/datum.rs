//! Parsed command text, as the command records are built from it.
//!
//! A command arrives as an s-expression that some reader has already turned
//! into a tree. [`Datum`] keeps of that tree what the commands look at:
//! symbols, numbers and lists. The arguments of a command form a property
//! list, a list that alternates keys and values: `(freq 440 ch (0 1))`.

use vstd::prelude::*;
use crate::scalar::Scalar;

verus! {

/// A number of the command text, in the two readings that commands take.
#[derive(Clone, Copy, Debug)]
pub struct Number {
    /// The number as an unsigned integer, if it was written as one.
    pub unsigned: Option<u64>,
    /// The number rounded to single precision.
    pub single: Scalar,
}

/// A node of the parsed command text.
#[derive(Debug)]
pub enum Datum {
    /// A bare name.
    Symbol(String),
    /// A number.
    Number(Number),
    /// The elements of a list, in order.
    List(Vec<Datum>),
    /// Anything else: a string, a keyword, a character and so on.
    Other,
}

/// The number of key/value pairs at the front of `items`, from position `at`
/// on: pairs are counted as long as a symbol stands where a key is due and a
/// value follows it.
pub open spec fn pairs_from(items: Seq<Datum>, at: int) -> nat
    decreases items.len() - at,
{
    if 0 <= at && at + 2 <= items.len() && items[at] is Symbol {
        1 + pairs_from(items, at + 2)
    } else {
        0
    }
}

/// The key/value pairs of a property list: key `i` is the symbol at position
/// `2 * i`, and its value is the element after it. The pairs end before the
/// first key that is not a symbol, and before a key that no value follows.
pub open spec fn plist(items: Seq<Datum>) -> Seq<(Seq<char>, Datum)> {
    Seq::new(pairs_from(items, 0), |i: int| (items[2 * i]->Symbol_0@, items[2 * i + 1]))
}

/// The pairs of a property list are its longest run of symbol keys that have
/// values: there are `n` of them where the first `n` keys are symbols with a
/// value each, and the next key is missing, has no value, or is no symbol.
pub proof fn lemma_pairs_stop(items: Seq<Datum>, n: nat)
    requires
        2 * n <= items.len(),
        forall|i: int| 0 <= i < n ==> (#[trigger] items[2 * i]) is Symbol,
        2 * n + 2 <= items.len() ==> !(items[2 * n as int] is Symbol),
    ensures
        plist(items).len() == n,
{
    lemma_pairs_count(items, 0, n);
}

proof fn lemma_pairs_count(items: Seq<Datum>, done: nat, n: nat)
    requires
        done <= n,
        2 * n <= items.len(),
        forall|i: int| 0 <= i < n ==> (#[trigger] items[2 * i]) is Symbol,
        2 * n + 2 <= items.len() ==> !(items[2 * n as int] is Symbol),
    ensures
        pairs_from(items, 2 * (done as int)) == n - done,
    decreases n - done,
{
    if done < n {
        lemma_pairs_count(items, done + 1, n);
    }
}

/// The key/value pairs of a property list, in order.
pub fn for_plist<'a>(items: &'a Vec<Datum>) -> (pairs: Vec<(&'a String, &'a Datum)>)
    ensures
        pairs@.len() == plist(items@).len(),
        forall|i: int|
            0 <= i < pairs@.len() ==> (#[trigger] pairs@[i]).0@ == plist(items@)[i].0
                && *pairs@[i].1 == plist(items@)[i].1,
{
    let mut pairs: Vec<(&'a String, &'a Datum)> = Vec::new();
    let mut at: usize = 0;
    while at < items.len() && items.len() - at >= 2
        invariant
            at == 2 * pairs@.len(),
            at <= items@.len(),
            pairs_from(items@, 0) == pairs@.len() + pairs_from(items@, at as int),
            forall|i: int|
                0 <= i < pairs@.len() ==> (#[trigger] pairs@[i]).0@ == items@[2 * i]->Symbol_0@
                    && *pairs@[i].1 == items@[2 * i + 1],
        decreases items@.len() - at,
    {
        match &items[at] {
            Datum::Symbol(key) => {
                pairs.push((key, &items[at + 1]));
                at = at + 2;
            },
            _ => {
                return pairs;
            },
        }
    }
    pairs
}

} // verus!
