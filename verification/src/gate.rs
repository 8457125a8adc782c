//! Suppressing captures that show a render which was already decoded.

use vstd::prelude::*;

verus! {

/// Remembers the sequence counter of the last header that was let through.
/// A capture whose header carries the same counter shows a render that has
/// not changed and is dropped. Nothing else is compared: a gate does not
/// notice skipped frames, and after 256 frames the counter comes round.
#[derive(Clone, Copy, Debug, PartialEq, Eq, Structural)]
pub struct SequenceGate {
    /// The counter that was let through last; `None` before the first one.
    pub last: Option<u8>,
}

/// Whether a gate that let `last` through lets a header with `sequence` pass.
pub open spec fn accepts(last: Option<u8>, sequence: u8) -> bool {
    last != Some(sequence)
}

/// How many headers of a feed a gate lets through, given what it let through
/// before the feed.
pub open spec fn forwarded(last: Option<u8>, feed: Seq<u8>) -> nat
    decreases feed.len(),
{
    if feed.len() == 0 {
        0
    } else {
        let first: nat = if accepts(last, feed[0]) {
            1
        } else {
            0
        };
        first + forwarded(Some(feed[0]), feed.drop_first())
    }
}

/// How many headers of a feed a gate drops.
pub open spec fn suppressed(last: Option<u8>, feed: Seq<u8>) -> int {
    feed.len() - forwarded(last, feed)
}

/// What a gate remembers after a feed.
pub open spec fn last_after(last: Option<u8>, feed: Seq<u8>) -> Option<u8> {
    if feed.len() == 0 {
        last
    } else {
        Some(feed.last())
    }
}

impl SequenceGate {
    /// A gate that has seen no header yet and lets any first one pass.
    pub fn new() -> (gate: SequenceGate)
        ensures
            gate.last is None,
    {
        SequenceGate { last: None }
    }

    /// Decides on a header with this sequence counter: `false` if it repeats
    /// the last one that passed, `true` otherwise, in which case it is
    /// remembered.
    pub fn accept(&mut self, sequence: u8) -> (pass: bool)
        ensures
            pass == accepts(old(self).last, sequence),
            final(self).last == Some(sequence),
    {
        if self.last == Some(sequence) {
            false
        } else {
            self.last = Some(sequence);
            true
        }
    }

    /// Offers a feed of sequence counters one by one and counts those
    /// that pass.
    pub fn accept_all(&mut self, feed: &Vec<u8>) -> (passed: usize)
        ensures
            passed == forwarded(old(self).last, feed@),
            final(self).last == last_after(old(self).last, feed@),
    {
        let mut passed: usize = 0;
        let mut k: usize = 0;
        assert(feed@.skip(0) =~= feed@);
        while k < feed.len()
            invariant
                k <= feed.len(),
                passed <= k,
                passed + forwarded(self.last, feed@.skip(k as int)) == forwarded(
                    old(self).last,
                    feed@,
                ),
                self.last == last_after(old(self).last, feed@.take(k as int)),
            decreases feed.len() - k,
        {
            proof {
                assert(feed@.skip(k as int).drop_first() =~= feed@.skip(k + 1));
                assert(feed@.take(k + 1).last() == feed@[k as int]);
            }
            if self.accept(feed[k]) {
                passed = passed + 1;
            }
            k = k + 1;
        }
        proof {
            assert(feed@.take(k as int) =~= feed@);
        }
        passed
    }
}

/// A feed that repeats one sequence counter is forwarded at most once: no
/// header of it passes a gate that let this counter through last.
pub proof fn lemma_repeats_suppressed(sequence: u8, n: nat)
    ensures
        forwarded(Some(sequence), Seq::new(n, |i: int| sequence)) == 0,
    decreases n,
{
    if n > 0 {
        let feed = Seq::new(n, |i: int| sequence);
        assert(feed.drop_first() =~= Seq::new((n - 1) as nat, |i: int| sequence));
        lemma_repeats_suppressed(sequence, (n - 1) as nat);
    }
}

/// Feeding the same sequence counter `n` times to a gate that let another
/// counter through last, or none, forwards exactly one header and suppresses
/// the other `n - 1`.
pub proof fn lemma_same_sequence_forwarded_once(last: Option<u8>, sequence: u8, n: nat)
    requires
        n >= 1,
        accepts(last, sequence),
    ensures
        forwarded(last, Seq::new(n, |i: int| sequence)) == 1,
        suppressed(last, Seq::new(n, |i: int| sequence)) == n - 1,
        last_after(last, Seq::new(n, |i: int| sequence)) == Some(sequence),
{
    let feed = Seq::new(n, |i: int| sequence);
    assert(feed.drop_first() =~= Seq::new((n - 1) as nat, |i: int| sequence));
    lemma_repeats_suppressed(sequence, (n - 1) as nat);
}

} // verus!
