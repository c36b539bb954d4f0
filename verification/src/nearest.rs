//! Which object a ray meets first.
//!
//! The objects are tried in scene order. A hit is known by its distance key:
//! an unsigned integer that orders hits as their distances along the ray do.
//! The nearest hit wins; of two equally near, the one tried first.

use vstd::prelude::*;

verus! {

/// The winner among the hits offered so far: the index of its object and
/// its distance key. `offers[i]` is the hit on object `i`, if there is one.
pub open spec fn nearest_of(offers: Seq<Option<u64>>) -> Option<(nat, u64)>
    decreases offers.len(),
{
    if offers.len() == 0 {
        None
    } else {
        let before = nearest_of(offers.drop_last());
        match (offers.last(), before) {
            (Some(key), Some((_, least))) => if key < least {
                Some(((offers.len() - 1) as nat, key))
            } else {
                before
            },
            (Some(key), None) => Some(((offers.len() - 1) as nat, key)),
            (None, _) => before,
        }
    }
}

/// The winner is a hit that was offered, none is nearer, and none that came
/// before it is as near. There is a winner as soon as there is a hit.
pub proof fn lemma_nearest_is_first_least(offers: Seq<Option<u64>>)
    ensures
        match nearest_of(offers) {
            Some((index, key)) => {
                &&& index < offers.len()
                &&& offers[index as int] == Some(key)
                &&& forall|j: int| 0 <= j < offers.len() && offers[j] is Some ==> key <= (#[trigger] offers[j])->0
                &&& forall|j: int| 0 <= j < index && offers[j] is Some ==> key < (#[trigger] offers[j])->0
            },
            None => forall|j: int| 0 <= j < offers.len() ==> (#[trigger] offers[j]) is None,
        },
    decreases offers.len(),
{
    if offers.len() > 0 {
        let front = offers.drop_last();
        lemma_nearest_is_first_least(front);
        assert forall|j: int| 0 <= j < front.len() implies front[j] == offers[j] by {}
    }
}

/// The running winner of one scan over the objects.
pub struct Nearest {
    offered: usize,
    best: Option<(usize, u64)>,
    offers: Ghost<Seq<Option<u64>>>,
}

impl Nearest {
    /// What has been offered so far, object by object.
    pub closed spec fn offers(&self) -> Seq<Option<u64>> {
        self.offers@
    }

    /// The scan holds the winner of what was offered.
    pub closed spec fn wf(&self) -> bool {
        &&& self.offered == self.offers@.len()
        &&& match self.best {
            Some((index, key)) => nearest_of(self.offers@) == Some((index as nat, key)),
            None => nearest_of(self.offers@) is None,
        }
    }

    /// Starts a scan: nothing offered yet.
    pub fn new() -> (n: Nearest)
        ensures
            n.wf(),
            n.offers() == Seq::<Option<u64>>::empty(),
    {
        Nearest { offered: 0, best: None, offers: Ghost(Seq::empty()) }
    }

    /// The distance key that the next hit has to stay below to win, if any
    /// hit was offered yet.
    pub fn bound(&self) -> (b: Option<u64>)
        requires
            self.wf(),
        ensures
            b == match nearest_of(self.offers()) {
                Some((_, key)) => Some(key),
                None => None,
            },
    {
        match self.best {
            Some((_, key)) => Some(key),
            None => None,
        }
    }

    /// Offers the hit on the next object, or that there is none. Says
    /// whether that hit is the new winner.
    pub fn offer(&mut self, hit: Option<u64>) -> (won: bool)
        requires
            old(self).wf(),
            old(self).offers().len() < usize::MAX,
        ensures
            final(self).wf(),
            final(self).offers() == old(self).offers().push(hit),
            won == (nearest_of(final(self).offers()) matches Some((index, _))
                && index == old(self).offers().len()),
    {
        let ghost before = self.offers@;
        let ghost after = before.push(hit);
        proof {
            assert(after.drop_last() =~= before);
            lemma_nearest_is_first_least(before);
        }
        let index: usize = self.offered;
        let won = match hit {
            Some(key) => match self.best {
                Some((_, least)) => key < least,
                None => true,
            },
            None => false,
        };
        if won {
            self.best = Some((index, hit.unwrap()));
        }
        self.offered = index + 1;
        self.offers = Ghost(after);
        won
    }

    /// The winner: the index of the nearest object hit, and its distance key.
    pub fn winner(&self) -> (w: Option<(usize, u64)>)
        requires
            self.wf(),
        ensures
            match w {
                Some((index, key)) => index < self.offers().len() && nearest_of(self.offers())
                    == Some((index as nat, key)),
                None => nearest_of(self.offers()) is None,
            },
    {
        proof {
            lemma_nearest_is_first_least(self.offers@);
        }
        self.best
    }
}

} // verus!
