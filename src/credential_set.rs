use vstd::prelude::*;
use crate::credential::VC;

verus! {

/// The credentials of one DID, kept in increasing order of their ids.
pub struct CredentialSet {
    entries: Vec<(u128, VC)>,
    model: Ghost<Map<u128, VC>>,
}

impl View for CredentialSet {
    type V = Map<u128, VC>;

    closed spec fn view(&self) -> Map<u128, VC> {
        self.model@
    }
}

impl CredentialSet {
    /// Ids strictly increase along the entries, and the entries are exactly
    /// the pairs of the model.
    pub closed spec fn wf(&self) -> bool {
        &&& forall|i: int, j: int|
            0 <= i < j < self.entries@.len() ==> (#[trigger] self.entries@[i]).0
                < (#[trigger] self.entries@[j]).0
        &&& forall|i: int|
            0 <= i < self.entries@.len() ==> self.model@.contains_key(#[trigger] self.entries@[i].0)
                && self.model@[self.entries@[i].0] == self.entries@[i].1
        &&& forall|k: u128|
            #[trigger] self.model@.contains_key(k) ==> exists|i: int|
                0 <= i < self.entries@.len() && #[trigger] self.entries@[i].0 == k
    }

    /// A set with no credential.
    pub fn new() -> (r: CredentialSet)
        ensures
            r.wf(),
            r@ == Map::<u128, VC>::empty(),
    {
        CredentialSet { entries: Vec::new(), model: Ghost(Map::empty()) }
    }

    /// Number of credentials held.
    pub fn len(&self) -> (r: usize)
        requires
            self.wf(),
        ensures
            r as nat == self@.dom().len(),
    {
        proof {
            self.lemma_dom_len();
        }
        self.entries.len()
    }

    proof fn lemma_dom_len(&self)
        requires
            self.wf(),
        ensures
            self@.dom().len() == self.entries@.len(),
    {
        let keys = self.entries@.map_values(|e: (u128, VC)| e.0);
        assert(keys.no_duplicates()) by {
            assert forall|i: int, j: int|
                0 <= i < keys.len() && 0 <= j < keys.len() && i != j implies keys[i] != keys[j] by {
                if i < j {
                    assert(self.entries@[i].0 < self.entries@[j].0);
                } else {
                    assert(self.entries@[j].0 < self.entries@[i].0);
                }
            }
        }
        keys.unique_seq_to_set();
        assert(keys.to_set() =~= self@.dom()) by {
            assert forall|k: u128| self@.dom().contains(k) implies keys.to_set().contains(k) by {
                let i = choose|i: int| 0 <= i < self.entries@.len() && self.entries@[i].0 == k;
                assert(keys[i] == k);
            }
            assert forall|k: u128| keys.to_set().contains(k) implies self@.dom().contains(k) by {
                let i = choose|i: int| 0 <= i < keys.len() && keys[i] == k;
                assert(self.entries@[i].0 == k);
            }
        }
    }

    /// Position of the entry with this id, if any.
    fn find(&self, id: u128) -> (r: Option<usize>)
        requires
            self.wf(),
        ensures
            r is None <==> !self@.contains_key(id),
            r matches Some(p) ==> p < self.entries@.len() && self.entries@[p as int].0 == id,
    {
        let mut i: usize = 0;
        while i < self.entries.len()
            invariant
                self.wf(),
                i <= self.entries@.len(),
                forall|j: int| 0 <= j < i ==> (#[trigger] self.entries@[j]).0 != id,
            decreases self.entries@.len() - i,
        {
            if self.entries[i].0 == id {
                return Some(i);
            }
            i = i + 1;
        }
        None
    }

    /// Whether a credential with this id is held.
    pub fn contains(&self, id: u128) -> (r: bool)
        requires
            self.wf(),
        ensures
            r == self@.contains_key(id),
    {
        self.find(id).is_some()
    }

    /// The credential with this id, if any.
    pub fn get(&self, id: u128) -> (r: Option<&VC>)
        requires
            self.wf(),
        ensures
            r is None <==> !self@.contains_key(id),
            r matches Some(vc) ==> *vc == self@[id],
    {
        match self.find(id) {
            Some(p) => Some(&self.entries[p].1),
            None => None,
        }
    }

    /// The ids held, in increasing order.
    pub fn ids(&self) -> (r: Vec<u128>)
        requires
            self.wf(),
        ensures
            forall|i: int, j: int| 0 <= i < j < r@.len() ==> r@[i] < r@[j],
            forall|k: u128| self@.contains_key(k) <==> r@.contains(k),
    {
        let mut r: Vec<u128> = Vec::new();
        let mut i: usize = 0;
        while i < self.entries.len()
            invariant
                self.wf(),
                i <= self.entries@.len(),
                r@.len() == i,
                forall|j: int| 0 <= j < i ==> #[trigger] r@[j] == self.entries@[j].0,
            decreases self.entries@.len() - i,
        {
            r.push(self.entries[i].0);
            i = i + 1;
        }
        proof {
            assert forall|k: u128| self@.contains_key(k) implies r@.contains(k) by {
                let j = choose|j: int| 0 <= j < self.entries@.len() && #[trigger] self.entries@[j].0 == k;
                assert(r@[j] == k);
            }
        }
        r
    }

    /// Adds the credential under an id not yet held; with the id already
    /// held, returns false and changes nothing.
    pub fn insert(&mut self, id: u128, vc: VC) -> (r: bool)
        requires
            old(self).wf(),
        ensures
            final(self).wf(),
            r == !old(self)@.contains_key(id),
            r ==> final(self)@ == old(self)@.insert(id, vc),
            !r ==> final(self)@ == old(self)@,
    {
        let mut p: usize = 0;
        while p < self.entries.len() && self.entries[p].0 < id
            invariant
                self.wf(),
                p <= self.entries@.len(),
                forall|j: int| 0 <= j < p ==> (#[trigger] self.entries@[j]).0 < id,
            decreases self.entries@.len() - p,
        {
            p = p + 1;
        }
        if p < self.entries.len() && self.entries[p].0 == id {
            return false;
        }
        proof {
            assert forall|j: int| p <= j < self.entries@.len() implies id < (
            #[trigger] self.entries@[j]).0 by {
                if j > p {
                    assert(self.entries@[p as int].0 < self.entries@[j].0);
                }
            }
        }
        let ghost before = self.entries@;
        self.entries.insert(p, (id, vc));
        self.model = Ghost(self.model@.insert(id, vc));
        proof {
            assert forall|i: int|
                0 <= i < self.entries@.len() implies (#[trigger] self.entries@[i]) == (if i < p {
                before[i]
            } else if i == p {
                (id, vc)
            } else {
                before[i - 1]
            }) by {}
            assert forall|k: u128| #[trigger] self.model@.contains_key(k) implies exists|i: int|
                0 <= i < self.entries@.len() && #[trigger] self.entries@[i].0 == k by {
                if k == id {
                    assert(self.entries@[p as int].0 == k);
                } else {
                    let j = choose|j: int| 0 <= j < before.len() && before[j].0 == k;
                    if j < p {
                        assert(self.entries@[j].0 == k);
                    } else {
                        assert(self.entries@[j + 1].0 == k);
                    }
                }
            }
        }
        true
    }

    /// Sets the revocation flag of a held credential and leaves every other
    /// field of it as it was; with the id not held, returns false and
    /// changes nothing.
    pub fn set_revoked(&mut self, id: u128, flag: bool) -> (r: bool)
        requires
            old(self).wf(),
        ensures
            final(self).wf(),
            r == old(self)@.contains_key(id),
            r ==> final(self)@ == old(self)@.insert(id, old(self)@[id].with_revoked(flag)),
            !r ==> final(self)@ == old(self)@,
    {
        match self.find(id) {
            None => false,
            Some(p) => {
                let ghost before = self.entries@;
                self.entries[p].1.revoked = flag;
                self.model = Ghost(self.model@.insert(id, self.model@[id].with_revoked(flag)));
                proof {
                    assert forall|i: int|
                        0 <= i < self.entries@.len() && i != p implies #[trigger] self.entries@[i]
                        == before[i] by {}
                    assert forall|i: int, j: int|
                        0 <= i < j < self.entries@.len() implies (#[trigger] self.entries@[i]).0
                        < (#[trigger] self.entries@[j]).0 by {
                        assert(before[i].0 < before[j].0);
                    }
                    assert forall|k: u128| #[trigger] self.model@.contains_key(k) implies exists|
                        i: int,
                    | 0 <= i < self.entries@.len() && #[trigger] self.entries@[i].0 == k by {
                        let j = choose|j: int| 0 <= j < before.len() && before[j].0 == k;
                        assert(self.entries@[j].0 == k);
                    }
                }
                true
            },
        }
    }
}

} // verus!
