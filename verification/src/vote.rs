//! Resolving a set of repeated samples to the value that most of them agree on.

use vstd::prelude::*;
use crate::pixel::Pixel;

verus! {

/// How many of the samples equal `value`.
pub open spec fn occurrences(samples: Seq<Pixel>, value: Pixel) -> nat
    decreases samples.len(),
{
    if samples.len() == 0 {
        0
    } else {
        occurrences(samples.drop_last(), value) + if samples.last() == value {
            1nat
        } else {
            0nat
        }
    }
}

/// Sample `i` is the earliest of the most frequent samples: no value occurs
/// more often than it, and every sample before it occurs less often.
pub open spec fn is_first_leader(samples: Seq<Pixel>, i: int) -> bool {
    &&& 0 <= i < samples.len()
    &&& forall|j: int|
        0 <= j < samples.len() ==> occurrences(samples, #[trigger] samples[j]) <= occurrences(
            samples,
            samples[i],
        )
    &&& forall|j: int|
        0 <= j < i ==> occurrences(samples, #[trigger] samples[j]) < occurrences(
            samples,
            samples[i],
        )
}

/// Some value occurs at least `required` times among the samples.
pub open spec fn has_consensus(samples: Seq<Pixel>, required: nat) -> bool {
    exists|i: int| 0 <= i < samples.len() && occurrences(samples, #[trigger] samples[i]) >= required
}

/// The value that a vote over the samples resolves to: the most frequent one,
/// the earliest where several are equally frequent, provided it occurs at
/// least `required` times.
pub open spec fn majority(samples: Seq<Pixel>, required: nat) -> Option<Pixel> {
    if has_consensus(samples, required) {
        Some(samples[choose|i: int| is_first_leader(samples, i)])
    } else {
        None
    }
}

/// At most one sample is the first leader.
pub proof fn lemma_first_leader_unique(samples: Seq<Pixel>, i: int, j: int)
    requires
        is_first_leader(samples, i),
        is_first_leader(samples, j),
    ensures
        i == j,
{
    if i < j {
        assert(occurrences(samples, samples[i]) < occurrences(samples, samples[j]));
        assert(occurrences(samples, samples[j]) <= occurrences(samples, samples[i]));
    } else if j < i {
        assert(occurrences(samples, samples[j]) < occurrences(samples, samples[i]));
        assert(occurrences(samples, samples[i]) <= occurrences(samples, samples[j]));
    }
}

/// A value that occurs at all occurs at some index, and the other way round.
pub proof fn lemma_occurrences_positive(samples: Seq<Pixel>, value: Pixel)
    ensures
        occurrences(samples, value) > 0 <==> exists|i: int|
            0 <= i < samples.len() && samples[i] == value,
    decreases samples.len(),
{
    if samples.len() > 0 {
        let front = samples.drop_last();
        lemma_occurrences_positive(front, value);
        if occurrences(samples, value) > 0 {
            if samples.last() == value {
                assert(samples[samples.len() - 1] == value);
            } else {
                let i = choose|i: int| 0 <= i < front.len() && front[i] == value;
                assert(samples[i] == value);
            }
        }
        if exists|i: int| 0 <= i < samples.len() && samples[i] == value {
            let i = choose|i: int| 0 <= i < samples.len() && samples[i] == value;
            if i < samples.len() - 1 {
                assert(front[i] == value);
            }
        }
    }
}

/// The index at which `value` occurs first, or the number of samples where
/// it does not occur.
pub open spec fn first_index_of(samples: Seq<Pixel>, value: Pixel) -> int
    decreases samples.len(),
{
    if samples.len() == 0 {
        0
    } else if samples[0] == value {
        0
    } else {
        1 + first_index_of(samples.drop_first(), value)
    }
}

/// `first_index_of` is the least index at which a value occurs.
pub proof fn lemma_first_index_of(samples: Seq<Pixel>, value: Pixel)
    ensures
        0 <= first_index_of(samples, value) <= samples.len(),
        forall|j: int| 0 <= j < first_index_of(samples, value) ==> samples[j] != value,
        first_index_of(samples, value) < samples.len() ==> samples[first_index_of(
            samples,
            value,
        )] == value,
    decreases samples.len(),
{
    if samples.len() > 0 && samples[0] != value {
        let rest = samples.drop_first();
        lemma_first_index_of(rest, value);
        assert forall|j: int| 0 <= j < first_index_of(samples, value) implies samples[j]
            != value by {
            if j > 0 {
                assert(rest[j - 1] == samples[j]);
            }
        }
    }
}

/// A value that occurs at least `required` times, at least once, and more
/// often than any other value wins the vote.
pub proof fn lemma_clear_winner(samples: Seq<Pixel>, value: Pixel, required: nat)
    requires
        occurrences(samples, value) >= required,
        occurrences(samples, value) > 0,
        forall|i: int|
            0 <= i < samples.len() && samples[i] != value ==> occurrences(
                samples,
                #[trigger] samples[i],
            ) < occurrences(samples, value),
    ensures
        majority(samples, required) == Some(value),
{
    lemma_occurrences_positive(samples, value);
    lemma_first_index_of(samples, value);
    let first = first_index_of(samples, value);
    if first >= samples.len() {
        let i = choose|i: int| 0 <= i < samples.len() && samples[i] == value;
        assert(samples[i] != value);
    }
    assert(samples[first] == value);
    assert(is_first_leader(samples, first));
    assert(has_consensus(samples, required));
    let chosen = choose|i: int| is_first_leader(samples, i);
    lemma_first_leader_unique(samples, chosen, first);
}

/// Samples that all show the same value resolve to it, if there are enough
/// of them.
pub proof fn lemma_unanimous(samples: Seq<Pixel>, value: Pixel, required: nat)
    requires
        samples.len() >= required,
        samples.len() > 0,
        forall|i: int| 0 <= i < samples.len() ==> #[trigger] samples[i] == value,
    ensures
        occurrences(samples, value) == samples.len(),
        majority(samples, required) == Some(value),
{
    lemma_all_equal_counted(samples, value);
    lemma_clear_winner(samples, value, required);
}

/// Where every sample equals `value`, it occurs as often as there are samples.
proof fn lemma_all_equal_counted(samples: Seq<Pixel>, value: Pixel)
    requires
        forall|i: int| 0 <= i < samples.len() ==> #[trigger] samples[i] == value,
    ensures
        occurrences(samples, value) == samples.len(),
    decreases samples.len(),
{
    if samples.len() > 0 {
        let front = samples.drop_last();
        assert forall|i: int| 0 <= i < front.len() implies #[trigger] front[i] == value by {
            assert(front[i] == samples[i]);
        }
        lemma_all_equal_counted(front, value);
        assert(samples.last() == samples[samples.len() - 1]);
    }
}

/// Where no value occurs `required` times, the vote fails.
pub proof fn lemma_no_consensus(samples: Seq<Pixel>, required: nat)
    requires
        forall|i: int|
            0 <= i < samples.len() ==> occurrences(samples, #[trigger] samples[i]) < required,
    ensures
        majority(samples, required) is None,
{
}

/// Counts the samples that equal `value`.
pub fn count_occurrences(samples: &Vec<Pixel>, value: Pixel) -> (count: usize)
    ensures
        count == occurrences(samples@, value),
{
    let mut count: usize = 0;
    let mut k: usize = 0;
    while k < samples.len()
        invariant
            k <= samples.len(),
            count == occurrences(samples@.take(k as int), value),
            count <= k,
        decreases samples.len() - k,
    {
        proof {
            assert(samples@.take(k + 1).drop_last() =~= samples@.take(k as int));
        }
        if samples[k] == value {
            count = count + 1;
        }
        k = k + 1;
    }
    proof {
        assert(samples@.take(k as int) =~= samples@);
    }
    count
}

/// Majority vote: the most frequent sample, if it occurs at least `required`
/// times. Where several values are equally frequent the one that was sampled
/// first wins.
pub fn resolve_by_majority(samples: &Vec<Pixel>, required: usize) -> (winner: Option<Pixel>)
    ensures
        winner == majority(samples@, required as nat),
        winner is Some <==> has_consensus(samples@, required as nat),
        winner matches Some(p) ==> occurrences(samples@, p) >= required && forall|q: Pixel|
            #[trigger] occurrences(samples@, q) <= occurrences(samples@, p),
{
    let n = samples.len();
    if n == 0 {
        return None;
    }
    let mut best: usize = 0;
    let mut best_count: usize = count_occurrences(samples, samples[0]);
    let mut i: usize = 1;
    while i < n
        invariant
            n == samples.len(),
            1 <= i <= n,
            best < i,
            best_count == occurrences(samples@, samples@[best as int]),
            forall|j: int|
                0 <= j < i ==> occurrences(samples@, #[trigger] samples@[j]) <= best_count,
            forall|j: int|
                0 <= j < best ==> occurrences(samples@, #[trigger] samples@[j]) < best_count,
        decreases n - i,
    {
        let c = count_occurrences(samples, samples[i]);
        if c > best_count {
            best = i;
            best_count = c;
        }
        i = i + 1;
    }
    proof {
        let s = samples@;
        assert(is_first_leader(s, best as int));
        let chosen = choose|k: int| is_first_leader(s, k);
        lemma_first_leader_unique(s, chosen, best as int);
        assert forall|q: Pixel| #[trigger] occurrences(s, q) <= occurrences(s, s[best as int]) by {
            lemma_occurrences_positive(s, q);
            lemma_occurrences_positive(s, s[best as int]);
            if occurrences(s, q) > 0 {
                let k = choose|k: int| 0 <= k < s.len() && s[k] == q;
                assert(occurrences(s, s[k]) <= best_count);
            }
        }
        if best_count >= required {
            assert(has_consensus(s, required as nat));
        }
    }
    if best_count >= required {
        Some(samples[best])
    } else {
        None
    }
}

/// Whether every sample equals the first one. True of no samples at all.
pub fn all_values_equal(samples: &Vec<Pixel>) -> (equal: bool)
    ensures
        equal <==> forall|i: int| 0 <= i < samples.len() ==> #[trigger] samples@[i] == samples@[0],
{
    let mut i: usize = 0;
    while i < samples.len()
        invariant
            i <= samples.len(),
            forall|j: int| 0 <= j < i ==> #[trigger] samples@[j] == samples@[0],
        decreases samples.len() - i,
    {
        if samples[i] != samples[0] {
            return false;
        }
        i = i + 1;
    }
    true
}

} // verus!
