//! A fingerprint index: positions of a list grouped by a 64-bit fingerprint
//! of what stands there, so that a lookup compares only the few entries
//! that share the fingerprint of the probe.

use std::collections::HashMap;
use vstd::prelude::*;

verus! {

broadcast use vstd::std_specs::hash::group_hash_axioms;

/// The fingerprint of the empty text.
pub const FINGERPRINT_SEED: u64 = 0xcbf2_9ce4_8422_2325;

/// The multiplier that mixes one more character into a fingerprint.
pub const FINGERPRINT_PRIME: u64 = 0x0000_0100_0000_01b3;

/// `print` with one more number mixed in.
pub open spec fn mixed(print: u64, n: u64) -> u64 {
    (print ^ n).wrapping_mul(FINGERPRINT_PRIME)
}

/// The fingerprint of a text: its characters mixed in, one after the other.
pub open spec fn fingerprint_of(text: Seq<char>) -> u64
    decreases text.len(),
{
    if text.len() == 0 {
        FINGERPRINT_SEED
    } else {
        mixed(fingerprint_of(text.drop_last()), text.last() as u64)
    }
}

/// The fingerprint of `text` continued from `print`: the characters of
/// `text` mixed into `print`, one after the other.
pub open spec fn continued(print: u64, text: Seq<char>) -> u64
    decreases text.len(),
{
    if text.len() == 0 {
        print
    } else {
        mixed(continued(print, text.drop_last()), text.last() as u64)
    }
}

/// Mixes one more number into a fingerprint.
pub fn mix(print: u64, n: u64) -> (r: u64)
    ensures
        r == mixed(print, n),
{
    (print ^ n).wrapping_mul(FINGERPRINT_PRIME)
}

/// Mixes the characters of `text` into a fingerprint.
pub fn mix_text(print: u64, text: &str) -> (r: u64)
    ensures
        r == continued(print, text@),
{
    let mut h: u64 = print;
    for c in it: text.chars()
        invariant
            it.seq() == text@,
            h == continued(print, text@.take(it.index() as int)),
    {
        proof {
            let next = text@.take(it.index() + 1);
            assert(next.drop_last() =~= text@.take(it.index() as int));
        }
        h = mix(h, c as u64);
    }
    assert(text@.take(text@.len() as int) =~= text@);
    h
}

/// Computes the fingerprint of a text.
pub fn fingerprint(text: &str) -> (r: u64)
    ensures
        r == fingerprint_of(text@),
{
    proof {
        lemma_fingerprint_continues(text@);
    }
    mix_text(FINGERPRINT_SEED, text)
}

/// A fingerprint is the seed continued by the text.
pub proof fn lemma_fingerprint_continues(text: Seq<char>)
    ensures
        fingerprint_of(text) == continued(FINGERPRINT_SEED, text),
    decreases text.len(),
{
    if text.len() > 0 {
        lemma_fingerprint_continues(text.drop_last());
    }
}

/// Positions grouped by fingerprint.
pub struct Index {
    buckets: HashMap<u64, Vec<usize>>,
}

impl Index {
    /// Whether `position` is filed under `print`.
    pub closed spec fn holds(&self, print: u64, position: usize) -> bool {
        self.buckets@.contains_key(print) && self.buckets@[print]@.contains(position)
    }

    /// An index that holds nothing.
    pub fn new() -> (r: Self)
        ensures
            forall|p: u64, i: usize| !r.holds(p, i),
    {
        Index { buckets: HashMap::new() }
    }

    /// Files `position` under `print`.
    pub fn add(&mut self, print: u64, position: usize)
        ensures
            forall|p: u64, i: usize|
                final(self).holds(p, i) <==> old(self).holds(p, i) || (p == print && i
                    == position),
    {
        let ghost before = self.buckets@;
        let mut bucket = match self.buckets.remove(&print) {
            Some(found) => found,
            None => Vec::new(),
        };
        let ghost filed = bucket@;
        bucket.push(position);
        self.buckets.insert(print, bucket);
        assert forall|p: u64, i: usize|
            self.holds(p, i) <==> (before.contains_key(p) && before[p]@.contains(i)) || (p == print
                && i == position) by {
            if p == print {
                if filed.contains(i) {
                    let k = choose|k: int| 0 <= k < filed.len() && filed[k] == i;
                    assert(bucket@[k] == i);
                }
                assert(bucket@[filed.len() as int] == position);
            }
        }
    }

    /// The positions filed under `print`, if there are any.
    pub fn candidates(&self, print: u64) -> (r: Option<&Vec<usize>>)
        ensures
            match r {
                Some(found) => forall|i: usize| found@.contains(i) <==> self.holds(print, i),
                None => forall|i: usize| !self.holds(print, i),
            },
    {
        self.buckets.get(&print)
    }
}

} // verus!
