use vstd::prelude::*;
use crate::credential::VC;
use crate::credential_set::CredentialSet;
use crate::error::RegistryError;

verus! {

/// The credentials of every DID, each DID appearing once.
pub struct CredentialStore {
    subjects: Vec<(String, CredentialSet)>,
    model: Ghost<Map<Seq<char>, Map<u128, VC>>>,
}

impl View for CredentialStore {
    type V = Map<Seq<char>, Map<u128, VC>>;

    closed spec fn view(&self) -> Map<Seq<char>, Map<u128, VC>> {
        self.model@
    }
}

/// The credentials that a store holds under a DID: none where the DID is absent.
pub open spec fn credentials_of(m: Map<Seq<char>, Map<u128, VC>>, did: Seq<char>) -> Map<u128, VC> {
    if m.contains_key(did) {
        m[did]
    } else {
        Map::empty()
    }
}

/// Whether the store holds a credential with this id under this DID.
pub open spec fn holds(m: Map<Seq<char>, Map<u128, VC>>, did: Seq<char>, id: u128) -> bool {
    m.contains_key(did) && m[did].contains_key(id)
}

/// The entries have distinct DIDs and well-formed sets, and are exactly the
/// pairs of the model.
spec fn subjects_match(
    subjects: Seq<(String, CredentialSet)>,
    model: Map<Seq<char>, Map<u128, VC>>,
) -> bool {
    &&& forall|i: int, j: int|
        0 <= i < j < subjects.len() ==> (#[trigger] subjects[i]).0@ != (#[trigger] subjects[j]).0@
    &&& forall|i: int|
        0 <= i < subjects.len() ==> (#[trigger] subjects[i]).1.wf() && model.contains_key(
            subjects[i].0@,
        ) && model[subjects[i].0@] == subjects[i].1@
    &&& forall|d: Seq<char>|
        #[trigger] model.contains_key(d) ==> exists|i: int|
            0 <= i < subjects.len() && #[trigger] subjects[i].0@ == d
}

/// Putting another well-formed set in one slot, under the same DID, keeps the
/// entries matching the model updated at that DID.
proof fn lemma_slot_update(
    before: Seq<(String, CredentialSet)>,
    after: Seq<(String, CredentialSet)>,
    model: Map<Seq<char>, Map<u128, VC>>,
    p: int,
)
    requires
        subjects_match(before, model),
        0 <= p < before.len(),
        after.len() == before.len(),
        forall|i: int| 0 <= i < before.len() && i != p ==> #[trigger] after[i] == before[i],
        after[p].0@ == before[p].0@,
        after[p].1.wf(),
    ensures
        subjects_match(after, model.insert(before[p].0@, after[p].1@)),
{
    let key = before[p].0@;
    let m2 = model.insert(key, after[p].1@);
    assert forall|i: int, j: int| 0 <= i < j < after.len() implies (#[trigger] after[i]).0@
        != (#[trigger] after[j]).0@ by {
        assert(before[i].0@ != before[j].0@);
    }
    assert forall|i: int| 0 <= i < after.len() implies (#[trigger] after[i]).1.wf()
        && m2.contains_key(after[i].0@) && m2[after[i].0@] == after[i].1@ by {
        if i != p {
            assert(after[i] == before[i]);
            if i < p {
                assert(before[i].0@ != before[p].0@);
            } else {
                assert(before[p].0@ != before[i].0@);
            }
        }
    }
    assert forall|d: Seq<char>| #[trigger] m2.contains_key(d) implies exists|i: int|
        0 <= i < after.len() && #[trigger] after[i].0@ == d by {
        if d == key {
            assert(after[p].0@ == d);
        } else {
            let j = choose|j: int| 0 <= j < before.len() && #[trigger] before[j].0@ == d;
            assert(after[j].0@ == d);
        }
    }
}

impl CredentialStore {
    /// DIDs are distinct, every set is well formed, and the sets are exactly
    /// those of the model.
    pub closed spec fn wf(&self) -> bool {
        subjects_match(self.subjects@, self.model@)
    }

    /// A store with no credential.
    pub fn new() -> (r: CredentialStore)
        ensures
            r.wf(),
            r@ == Map::<Seq<char>, Map<u128, VC>>::empty(),
    {
        CredentialStore { subjects: Vec::new(), model: Ghost(Map::empty()) }
    }

    /// Position of the DID's set, if any.
    fn find(&self, did: &String) -> (r: Option<usize>)
        requires
            self.wf(),
        ensures
            r is None <==> !self@.contains_key(did@),
            r matches Some(p) ==> p < self.subjects@.len() && self.subjects@[p as int].0@ == did@,
    {
        let mut i: usize = 0;
        while i < self.subjects.len()
            invariant
                self.wf(),
                i <= self.subjects@.len(),
                forall|j: int| 0 <= j < i ==> (#[trigger] self.subjects@[j]).0@ != did@,
            decreases self.subjects@.len() - i,
        {
            if self.subjects[i].0 == *did {
                return Some(i);
            }
            i = i + 1;
        }
        None
    }

    /// The credentials held under the DID, if it holds any.
    pub fn credentials(&self, did: &String) -> (r: Option<&CredentialSet>)
        requires
            self.wf(),
        ensures
            r is None <==> !self@.contains_key(did@),
            r matches Some(set) ==> set.wf() && set@ == self@[did@],
    {
        match self.find(did) {
            Some(p) => Some(&self.subjects[p].1),
            None => None,
        }
    }

    /// The credential with this id under the DID, if any.
    pub fn get(&self, did: &String, id: u128) -> (r: Option<&VC>)
        requires
            self.wf(),
        ensures
            r is None <==> !holds(self@, did@, id),
            r matches Some(vc) ==> *vc == self@[did@][id],
    {
        match self.find(did) {
            Some(p) => self.subjects[p].1.get(id),
            None => None,
        }
    }

    /// The DIDs that hold credentials, each once.
    pub fn dids(&self) -> (r: Vec<String>)
        requires
            self.wf(),
        ensures
            forall|i: int, j: int| 0 <= i < j < r@.len() ==> r@[i]@ != r@[j]@,
            forall|d: Seq<char>|
                self@.contains_key(d) <==> exists|i: int| 0 <= i < r@.len() && #[trigger] r@[i]@ == d,
    {
        let mut r: Vec<String> = Vec::new();
        let mut i: usize = 0;
        while i < self.subjects.len()
            invariant
                self.wf(),
                i <= self.subjects@.len(),
                r@.len() == i,
                forall|j: int| 0 <= j < i ==> #[trigger] r@[j]@ == self.subjects@[j].0@,
            decreases self.subjects@.len() - i,
        {
            r.push(self.subjects[i].0.clone());
            i = i + 1;
        }
        proof {
            assert forall|i: int, j: int| 0 <= i < j < r@.len() implies r@[i]@ != r@[j]@ by {
                assert(self.subjects@[i].0@ != self.subjects@[j].0@);
            }
            assert forall|d: Seq<char>| self@.contains_key(d) implies exists|i: int|
                0 <= i < r@.len() && #[trigger] r@[i]@ == d by {
                let j = choose|j: int| 0 <= j < self.subjects@.len() && #[trigger] self.subjects@[j].0@ == d;
                assert(r@[j]@ == d);
            }
            assert forall|d: Seq<char>| (exists|i: int| 0 <= i < r@.len() && #[trigger] r@[i]@ == d)
                implies self@.contains_key(d) by {
                let j = choose|j: int| 0 <= j < r@.len() && #[trigger] r@[j]@ == d;
                assert(self.subjects@[j].0@ == d);
            }
        }
        r
    }

    /// Stores the credential under the DID, creating the DID's set where it
    /// has none; fails with `AlreadyExists`, changing nothing, where the DID
    /// already holds that id.
    pub fn insert(&mut self, did: String, id: u128, vc: VC) -> (r: Result<(), RegistryError>)
        requires
            old(self).wf(),
        ensures
            final(self).wf(),
            r is Err <==> holds(old(self)@, did@, id),
            r matches Err(e) ==> e == RegistryError::AlreadyExists && final(self)@ == old(self)@,
            r is Ok ==> final(self)@ == old(self)@.insert(
                did@,
                credentials_of(old(self)@, did@).insert(id, vc),
            ),
    {
        match self.find(&did) {
            Some(p) => {
                if self.subjects[p].1.contains(id) {
                    return Err(RegistryError::AlreadyExists);
                }
                let ghost before = self.subjects@;
                let ghost key = did@;
                let ghost target = before[p as int].1@.insert(id, vc);
                let _ = self.subjects[p].1.insert(id, vc);
                self.model = Ghost(self.model@.insert(key, target));
                proof {
                    lemma_slot_update(before, self.subjects@, old(self).model@, p as int);
                }
                Ok(())
            },
            None => {
                let mut set = CredentialSet::new();
                let _ = set.insert(id, vc);
                let ghost before = self.subjects@;
                let ghost key = did@;
                let ghost target = set@;
                self.subjects.push((did, set));
                self.model = Ghost(self.model@.insert(key, target));
                proof {
                    assert(target == Map::<u128, VC>::empty().insert(id, vc));
                    assert forall|i: int|
                        0 <= i < before.len() implies #[trigger] self.subjects@[i] == before[i] by {}
                    assert forall|i: int, j: int|
                        0 <= i < j < self.subjects@.len() implies (#[trigger] self.subjects@[i]).0@
                        != (#[trigger] self.subjects@[j]).0@ by {
                        if j < before.len() {
                            assert(before[i].0@ != before[j].0@);
                        } else {
                            assert(old(self).model@.contains_key(before[i].0@));
                        }
                    }
                    assert forall|d: Seq<char>| #[trigger] self.model@.contains_key(d) implies exists|
                        i: int,
                    | 0 <= i < self.subjects@.len() && #[trigger] self.subjects@[i].0@ == d by {
                        if d == key {
                            assert(self.subjects@[before.len() as int].0@ == d);
                        } else {
                            let j = choose|j: int| 0 <= j < before.len() && before[j].0@ == d;
                            assert(self.subjects@[j].0@ == d);
                        }
                    }
                }
                Ok(())
            },
        }
    }

    /// Sets the revocation flag of the credential with this id under the DID,
    /// leaving every other field and every other credential as it was; fails
    /// with `NotFound`, changing nothing, where there is no such credential.
    pub fn set_revoked(&mut self, did: &String, id: u128, flag: bool) -> (r: Result<
        (),
        RegistryError,
    >)
        requires
            old(self).wf(),
        ensures
            final(self).wf(),
            r is Ok <==> holds(old(self)@, did@, id),
            r matches Err(e) ==> e == RegistryError::NotFound && final(self)@ == old(self)@,
            r is Ok ==> final(self)@ == old(self)@.insert(
                did@,
                old(self)@[did@].insert(id, old(self)@[did@][id].with_revoked(flag)),
            ),
    {
        match self.find(did) {
            None => Err(RegistryError::NotFound),
            Some(p) => {
                if !self.subjects[p].1.contains(id) {
                    return Err(RegistryError::NotFound);
                }
                let ghost before = self.subjects@;
                let ghost key = did@;
                let ghost target = before[p as int].1@.insert(
                    id,
                    before[p as int].1@[id].with_revoked(flag),
                );
                let _ = self.subjects[p].1.set_revoked(id, flag);
                self.model = Ghost(self.model@.insert(key, target));
                proof {
                    lemma_slot_update(before, self.subjects@, old(self).model@, p as int);
                }
                Ok(())
            },
        }
    }
}

} // verus!
