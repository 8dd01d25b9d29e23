//! The counters of a run: how many lines were seen and what became of
//! them. Counts are made once, while decoding, and added up per file.

use vstd::prelude::*;

verus! {

/// Line counts as natural numbers.
pub ghost struct Counts {
    /// Lines seen.
    pub total: nat,
    /// Lines that carry a deletion marker.
    pub deleted: nat,
    /// Lines that are no well-formed post.
    pub malformed: nat,
    /// Lines decoded into a post.
    pub decoded: nat,
    /// Decoded lines that carry a re-share marker.
    pub retweets: nat,
}

impl Counts {
    pub open spec fn zero() -> Counts {
        Counts { total: 0, deleted: 0, malformed: 0, decoded: 0, retweets: 0 }
    }

    /// The counts of two sets of lines taken together.
    pub open spec fn plus(self, other: Counts) -> Counts {
        Counts {
            total: self.total + other.total,
            deleted: self.deleted + other.deleted,
            malformed: self.malformed + other.malformed,
            decoded: self.decoded + other.decoded,
            retweets: self.retweets + other.retweets,
        }
    }

    /// Every line is accounted for exactly once, and only decoded lines
    /// count as re-shares.
    pub open spec fn balanced(self) -> bool {
        self.total == self.decoded + self.malformed + self.deleted && self.retweets <= self.decoded
    }

    /// Each count fits a `u64`.
    pub open spec fn fits(self) -> bool {
        self.total <= u64::MAX && self.deleted <= u64::MAX && self.malformed <= u64::MAX
            && self.decoded <= u64::MAX && self.retweets <= u64::MAX
    }

    /// No count of `self` exceeds that of `other`.
    pub open spec fn le(self, other: Counts) -> bool {
        self.total <= other.total && self.deleted <= other.deleted && self.malformed
            <= other.malformed && self.decoded <= other.decoded && self.retweets <= other.retweets
    }
}

/// The counts of all `parts` taken together.
pub open spec fn sum_counts(parts: Seq<Counts>) -> Counts
    decreases parts.len(),
{
    if parts.len() == 0 {
        Counts::zero()
    } else {
        sum_counts(parts.drop_last()).plus(parts.last())
    }
}

/// Adding counts does not depend on the order of the two, nor on how three
/// are grouped, and adding nothing changes nothing.
pub proof fn lemma_plus_monoid(a: Counts, b: Counts, c: Counts)
    ensures
        a.plus(b) == b.plus(a),
        a.plus(b).plus(c) == a.plus(b.plus(c)),
        a.plus(Counts::zero()) == a,
        Counts::zero().plus(a) == a,
{
}

/// Balanced counts add up to balanced counts.
pub proof fn lemma_plus_balanced(a: Counts, b: Counts)
    requires
        a.balanced(),
        b.balanced(),
    ensures
        a.plus(b).balanced(),
{
}

/// Taking one part out of a sum leaves the sum of the others.
pub proof fn lemma_sum_remove(parts: Seq<Counts>, index: int)
    requires
        0 <= index < parts.len(),
    ensures
        sum_counts(parts) == sum_counts(parts.remove(index)).plus(parts[index]),
    decreases parts.len(),
{
    if index == parts.len() - 1 {
        assert(parts.remove(index) =~= parts.drop_last());
    } else {
        lemma_sum_remove(parts.drop_last(), index);
        assert(parts.remove(index).drop_last() =~= parts.drop_last().remove(index));
        assert(parts.remove(index).last() == parts.last());
    }
}

/// The total does not depend on the order in which the parts are added:
/// two sequences with the same parts, each as often, have the same sum.
pub proof fn lemma_sum_any_order(a: Seq<Counts>, b: Seq<Counts>)
    requires
        a.to_multiset() == b.to_multiset(),
    ensures
        sum_counts(a) == sum_counts(b),
    decreases a.len(),
{
    a.to_multiset_ensures();
    b.to_multiset_ensures();
    if a.len() == 0 {
        assert(b.len() == 0);
    } else {
        let x = a.last();
        assert(a.contains(x));
        assert(b.to_multiset().count(x) > 0);
        assert(b.contains(x));
        let index = choose|i: int| 0 <= i < b.len() && b[i] == x;
        assert(a.remove(a.len() - 1) =~= a.drop_last());
        assert(a.drop_last().to_multiset() == b.remove(index).to_multiset());
        lemma_sum_any_order(a.drop_last(), b.remove(index));
        lemma_sum_remove(b, index);
    }
}

/// The sum of two runs of parts is the sum of their sums.
pub proof fn lemma_sum_concat(a: Seq<Counts>, b: Seq<Counts>)
    ensures
        sum_counts(a + b) == sum_counts(a).plus(sum_counts(b)),
    decreases b.len(),
{
    if b.len() == 0 {
        assert(a + b =~= a);
    } else {
        assert((a + b).drop_last() =~= a + b.drop_last());
        assert((a + b).last() == b.last());
        lemma_sum_concat(a, b.drop_last());
    }
}

/// A sum of balanced parts is balanced.
pub proof fn lemma_sum_balanced(parts: Seq<Counts>)
    requires
        forall|i: int| 0 <= i < parts.len() ==> (#[trigger] parts[i]).balanced(),
    ensures
        sum_counts(parts).balanced(),
    decreases parts.len(),
{
    if parts.len() > 0 {
        assert forall|i: int| 0 <= i < parts.drop_last().len() implies (
        #[trigger] parts.drop_last()[i]).balanced() by {
            assert(parts.drop_last()[i] == parts[i]);
        }
        lemma_sum_balanced(parts.drop_last());
    }
}

/// The sum of the first parts never exceeds the sum of all.
pub proof fn lemma_sum_prefix_le(parts: Seq<Counts>, n: int)
    requires
        0 <= n <= parts.len(),
    ensures
        sum_counts(parts.take(n)).le(sum_counts(parts)),
    decreases parts.len() - n,
{
    if n == parts.len() {
        assert(parts.take(n) =~= parts);
    } else {
        lemma_sum_prefix_le(parts, n + 1);
        assert(parts.take(n + 1).drop_last() =~= parts.take(n));
    }
}

/// The counters of a run.
#[derive(Clone, Copy, Debug, PartialEq, Eq, Structural)]
pub struct IngestStatistics {
    /// Lines seen.
    pub total: u64,
    /// Lines that carry a deletion marker.
    pub deleted: u64,
    /// Lines that are no well-formed post.
    pub malformed: u64,
    /// Lines decoded into a post.
    pub decoded: u64,
    /// Decoded lines that carry a re-share marker.
    pub retweets: u64,
}

impl View for IngestStatistics {
    type V = Counts;

    open spec fn view(&self) -> Counts {
        Counts {
            total: self.total as nat,
            deleted: self.deleted as nat,
            malformed: self.malformed as nat,
            decoded: self.decoded as nat,
            retweets: self.retweets as nat,
        }
    }
}

impl DeepView for IngestStatistics {
    type V = Counts;

    open spec fn deep_view(&self) -> Counts {
        self@
    }
}

impl IngestStatistics {
    /// Counters that have seen nothing.
    pub fn new() -> (r: IngestStatistics)
        ensures
            r@ == Counts::zero(),
    {
        IngestStatistics { total: 0, deleted: 0, malformed: 0, decoded: 0, retweets: 0 }
    }

    /// The counters of `self` and `other` added up, where every sum fits
    /// its counter; `None` where one does not.
    pub fn merge(&self, other: &IngestStatistics) -> (r: Option<IngestStatistics>)
        ensures
            r.deep_view() == if self@.plus(other@).fits() {
                Some(self@.plus(other@))
            } else {
                None
            },
    {
        let total = match self.total.checked_add(other.total) {
            Some(n) => n,
            None => return None,
        };
        let deleted = match self.deleted.checked_add(other.deleted) {
            Some(n) => n,
            None => return None,
        };
        let malformed = match self.malformed.checked_add(other.malformed) {
            Some(n) => n,
            None => return None,
        };
        let decoded = match self.decoded.checked_add(other.decoded) {
            Some(n) => n,
            None => return None,
        };
        let retweets = match self.retweets.checked_add(other.retweets) {
            Some(n) => n,
            None => return None,
        };
        Some(IngestStatistics { total, deleted, malformed, decoded, retweets })
    }
}

} // verus!
