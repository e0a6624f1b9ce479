use vstd::prelude::*;

use crate::beagle::Beagle;
use crate::beagle::is_fed;

verus! {

/// The ordered collection of dog records. Order is meaningful (positions can
/// be swapped) but carries no sorting invariant; name-based lookup resolves
/// duplicates to the first match.
#[derive(Debug)]
pub struct Pound {
    pub kennels: Vec<Beagle>,
}

/// Whether some record in `s` is named `name`.
pub open spec fn has_name(s: Seq<Beagle>, name: Seq<char>) -> bool {
    exists|i: int| 0 <= i < s.len() && s[i].name@ == name
}

/// Whether `i` is the position of the first record in `s` named `name`.
pub open spec fn is_first_with_name(s: Seq<Beagle>, name: Seq<char>, i: int) -> bool {
    &&& 0 <= i < s.len()
    &&& s[i].name@ == name
    &&& forall|j: int| 0 <= j < i ==> s[j].name@ != name
}

/// `s` with the records at positions `i` and `j` exchanged.
pub open spec fn swapped(s: Seq<Beagle>, i: int, j: int) -> Seq<Beagle> {
    s.update(i, s[j]).update(j, s[i])
}

impl Pound {
    /// An empty collection.
    pub fn new() -> (r: Pound)
        ensures
            r.kennels@ == Seq::<Beagle>::empty(),
    {
        Pound { kennels: Vec::new() }
    }

    /// Append a record at the tail. Always succeeds; the length grows by
    /// exactly one and every earlier record keeps its position.
    pub fn add(&mut self, beagle: Beagle)
        ensures
            final(self).kennels@ == old(self).kennels@.push(beagle),
            final(self).kennels@.len() == old(self).kennels@.len() + 1,
    {
        self.kennels.push(beagle);
    }

    /// The position of the first record whose name equals `name` exactly
    /// (case-sensitive), or `None` when no record has that name.
    pub fn find_kennel_by_name(&self, name: &str) -> (r: Option<usize>)
        ensures
            match r {
                Some(i) => is_first_with_name(self.kennels@, name@, i as int),
                None => !has_name(self.kennels@, name@),
            },
    {
        let target: String = name.to_owned();
        let n = self.kennels.len();
        let mut i: usize = 0;
        while i < n
            invariant
                n == self.kennels@.len(),
                i <= n,
                target@ == name@,
                forall|j: int| 0 <= j < i ==> self.kennels@[j].name@ != name@,
            decreases n - i,
        {
            if self.kennels[i].name == target {
                return Some(i);
            }
            i = i + 1;
        }
        None
    }

    /// Detach and return the first record named `name`, shifting the later
    /// records left to close the gap; return `None` and leave the collection
    /// unchanged when no record has that name.
    pub fn remove(&mut self, name: &str) -> (r: Option<Beagle>)
        ensures
            !has_name(old(self).kennels@, name@) ==> {
                &&& r is None
                &&& final(self).kennels@ == old(self).kennels@
            },
            has_name(old(self).kennels@, name@) ==> exists|i: int|
                {
                    &&& #[trigger] is_first_with_name(old(self).kennels@, name@, i)
                    &&& r == Some(old(self).kennels@[i])
                    &&& final(self).kennels@ == old(self).kennels@.remove(i)
                    &&& final(self).kennels@.len() == old(self).kennels@.len() - 1
                },
    {
        match self.find_kennel_by_name(name) {
            Some(index) => {
                let removed = self.kennels.remove(index);
                Some(removed)
            },
            None => None,
        }
    }

    /// Feed every record `amount`, in order: each hunger level follows the
    /// saturating rule independently, and no record moves or changes in any
    /// other field.
    pub fn feed_all(&mut self, amount: u8)
        ensures
            final(self).kennels@.len() == old(self).kennels@.len(),
            forall|i: int| 0 <= i < old(self).kennels@.len()
                ==> is_fed(old(self).kennels@[i], #[trigger] final(self).kennels@[i], amount),
    {
        let ghost orig = self.kennels@;
        let n = self.kennels.len();
        let mut i: usize = 0;
        while i < n
            invariant
                n == orig.len(),
                self.kennels@.len() == orig.len(),
                i <= n,
                forall|j: int| 0 <= j < i ==> is_fed(orig[j], #[trigger] self.kennels@[j], amount),
                forall|j: int| i <= j < n ==> self.kennels@[j] == orig[j],
            decreases n - i,
        {
            self.kennels[i].feed(amount);
            i = i + 1;
        }
    }

    /// Exchange the records at positions `pos1` and `pos2`; both must be
    /// valid indices. Nothing else about the order changes.
    pub fn swap_kennels(&mut self, pos1: usize, pos2: usize)
        requires
            pos1 < old(self).kennels@.len(),
            pos2 < old(self).kennels@.len(),
        ensures
            final(self).kennels@ == swapped(old(self).kennels@, pos1 as int, pos2 as int),
    {
        let lo: usize = if pos1 < pos2 { pos1 } else { pos2 };
        let hi: usize = if pos1 < pos2 { pos2 } else { pos1 };
        if lo < hi {
            let ghost orig = self.kennels@;
            let detached_hi = self.kennels.remove(hi);
            let detached_lo = self.kennels.remove(lo);
            self.kennels.insert(lo, detached_hi);
            self.kennels.insert(hi, detached_lo);
            proof {
                assert(self.kennels@ =~= swapped(orig, pos1 as int, pos2 as int));
            }
        } else {
            proof {
                assert(self.kennels@ =~= swapped(self.kennels@, pos1 as int, pos2 as int));
            }
        }
    }
}

/// A record appended at the tail is retrievable by its name: afterwards some
/// record bears that name, and if no earlier record bore it, lookup resolves
/// to the appended record's position, the old length.
pub proof fn lemma_added_is_found(s: Seq<Beagle>, b: Beagle)
    ensures
        has_name(s.push(b), b.name@),
        !has_name(s, b.name@) ==> is_first_with_name(s.push(b), b.name@, s.len() as int),
{
    assert(s.push(b)[s.len() as int].name@ == b.name@);
}

/// Exchanging two positions is self-inverse: swapping `i` and `j` twice
/// restores the original order.
pub proof fn lemma_swap_self_inverse(s: Seq<Beagle>, i: int, j: int)
    requires
        0 <= i < s.len(),
        0 <= j < s.len(),
    ensures
        swapped(swapped(s, i, j), i, j) == s,
{
    assert(swapped(swapped(s, i, j), i, j) =~= s);
}

} // verus!
