//! Bounded deduplication set with strict FIFO eviction.
//!
//! The set remembers the identifiers of messages that were already
//! processed. It holds at most `capacity` identifiers; when a new one
//! arrives at capacity, the oldest is evicted first.

use vstd::prelude::*;

use crate::strutil::str_eq;

verus! {

/// Deduplication set that evicts its oldest entry when full.
///
/// Membership and insertion order are kept in a single sequence, so the
/// set of known identifiers and the eviction queue hold the same elements
/// by construction. Membership tests scan that sequence, so they are
/// linear in the fill rather than amortized constant; the sequence is
/// the verifiable representation of the pair of hash set and queue.
pub struct BoundedSeenSet {
    order: Vec<String>,
    capacity: usize,
}

impl BoundedSeenSet {
    /// The identifiers currently held, oldest first.
    pub closed spec fn ids(&self) -> Seq<Seq<char>> {
        self.order.deep_view()
    }

    /// The configured capacity.
    pub closed spec fn cap(&self) -> nat {
        self.capacity as nat
    }

    /// A capacity of zero still admits one element before evicting,
    /// so the effective bound is never below one.
    pub open spec fn effective_cap(&self) -> nat {
        if self.cap() == 0 {
            1
        } else {
            self.cap()
        }
    }

    /// Invariant: no identifier occurs twice, and the length never
    /// exceeds the effective capacity.
    pub open spec fn wf(&self) -> bool {
        &&& forall|i: int, j: int|
            0 <= i < j < self.ids().len() ==> self.ids()[i] != self.ids()[j]
        &&& self.ids().len() <= self.effective_cap()
    }

    pub fn new(capacity: usize) -> (r: Self)
        ensures
            r.wf(),
            r.cap() == capacity,
            r.ids().len() == 0,
    {
        Self { order: Vec::new(), capacity }
    }

    pub fn len(&self) -> (r: usize)
        ensures
            r == self.ids().len(),
    {
        self.order.len()
    }

    pub fn contains(&self, id: &str) -> (r: bool)
        ensures
            r == self.ids().contains(id@),
    {
        let n = self.order.len();
        let mut i: usize = 0;
        while i < n
            invariant
                n == self.ids().len(),
                i <= n,
                forall|j: int| 0 <= j < i ==> self.ids()[j] != id@,
            decreases n - i,
        {
            assert(self.ids()[i as int] == self.order@[i as int]@);
            if str_eq(self.order[i].as_str(), id) {
                assert(self.ids().contains(id@));
                return true;
            }
            i = i + 1;
        }
        assert(!self.ids().contains(id@)) by {
            if self.ids().contains(id@) {
                let k = choose|k: int| 0 <= k < self.ids().len() && self.ids()[k] == id@;
                assert(self.ids()[k] != id@);
            }
        }
        false
    }

    /// Inserts `id` if it is new and reports whether it was new.
    ///
    /// A duplicate leaves the set unchanged. A new identifier is appended;
    /// if the set is already at capacity, the oldest entry is evicted
    /// first.
    pub fn insert(&mut self, id: String) -> (r: bool)
        requires
            old(self).wf(),
        ensures
            final(self).wf(),
            final(self).cap() == old(self).cap(),
            r == !old(self).ids().contains(id@),
            !r ==> final(self).ids() == old(self).ids(),
            r && old(self).ids().len() < old(self).effective_cap() ==> final(self).ids()
                == old(self).ids().push(id@),
            r && old(self).ids().len() >= old(self).effective_cap() ==> final(self).ids()
                == old(self).ids().subrange(1, old(self).ids().len() as int).push(id@),
            final(self).ids().contains(id@),
            final(self).ids().len() <= old(self).ids().len() + 1,
    {
        if self.contains(id.as_str()) {
            return false;
        }
        let ghost before = self.ids();
        if self.order.len() >= self.capacity && self.order.len() > 0 {
            self.order.remove(0);
            assert(self.ids() =~= before.subrange(1, before.len() as int));
        }
        let ghost mid = self.ids();
        assert(forall|j: int| 0 <= j < mid.len() ==> mid[j] != id@) by {
            assert(forall|j: int| 0 <= j < mid.len() ==> before.contains(mid[j]));
        }
        self.order.push(id);
        assert(self.ids() =~= mid.push(id@));
        assert(self.ids().last() == id@);
        true
    }
}

/// The deduplication set never exceeds its capacity: with a positive
/// capacity, a well-formed set holds at most `cap` identifiers, whatever
/// sequence of insertions produced it. Membership answers and the
/// eviction queue agree: an identifier is reported as seen exactly when
/// the queue holds it.
pub proof fn lemma_seen_set_bounded(s: &BoundedSeenSet)
    requires
        s.wf(),
        s.cap() >= 1,
    ensures
        s.ids().len() <= s.cap(),
        forall|x: Seq<char>| s.ids().to_set().contains(x) <==> s.ids().contains(x),
{
    assert forall|x: Seq<char>| s.ids().to_set().contains(x) <==> s.ids().contains(x) by {
        if s.ids().contains(x) {
            assert(s.ids().to_set().contains(x));
        }
    }
}

} // verus!
