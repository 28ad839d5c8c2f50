use vstd::prelude::*;
use crate::checks::{spec_status_valid, treasuries_ok};
use crate::error::ContractError;
use crate::order::{sorted_by, lemma_sorted_insert, lemma_sorted_remove};
use crate::state::Collection;
use crate::text::{
    collection_id, lemma_seq_lt_irreflexive, lemma_seq_lt_total, lemma_seq_lt_transitive,
    seq_lt, spec_collection_id, str_lt, to_owned_string,
};

verus! {

/// The identifier of a collection: name, dash, symbol.
pub open spec fn coll_id(c: Collection) -> Seq<char> {
    spec_collection_id(c.name@, c.symbol@)
}

/// Collections ordered by identifier.
pub open spec fn id_lt() -> spec_fn(Collection, Collection) -> bool {
    |a: Collection, b: Collection| seq_lt(coll_id(a), coll_id(b))
}

/// What every stored collection satisfies: it has an owner and a known status, and its
/// treasuries, if any, share out exactly 100 percent.
pub open spec fn stored_collection_ok(c: Collection) -> bool {
    &&& c.owner is Some
    &&& c.status matches Some(s) && spec_status_valid(s)
    &&& treasuries_ok(c.treasuries)
}

/// The collection is owned by `owner` and has identifier `id`.
pub open spec fn is_keyed(c: Collection, owner: Seq<char>, id: Seq<char>) -> bool {
    c.owner matches Some(o) && o@ == owner && coll_id(c) == id
}

/// The collections, kept in ascending identifier order; an identifier occurs at most
/// once across all owners.
pub struct CollectionStore {
    entries: Vec<Collection>,
}

impl CollectionStore {
    pub closed spec fn view(&self) -> Seq<Collection> {
        self.entries@
    }

    pub open spec fn wf(&self) -> bool {
        &&& sorted_by(self.view(), id_lt())
        &&& forall|i: int| 0 <= i < self.view().len() ==> stored_collection_ok(#[trigger] self.view()[i])
    }

    /// Some stored collection has identifier `id`.
    pub open spec fn has_id(&self, id: Seq<char>) -> bool {
        exists|i: int| 0 <= i < self.view().len() && coll_id(#[trigger] self.view()[i]) == id
    }

    /// Some stored collection is owned by `owner` and has identifier `id`.
    pub open spec fn has_key(&self, owner: Seq<char>, id: Seq<char>) -> bool {
        exists|i: int| 0 <= i < self.view().len() && is_keyed(#[trigger] self.view()[i], owner, id)
    }

    /// The stored collection of `owner` with identifier `id` (meaningful when there is one).
    pub open spec fn keyed(&self, owner: Seq<char>, id: Seq<char>) -> Collection {
        self.view()[choose|i: int| 0 <= i < self.view().len() && is_keyed(self.view()[i], owner, id)]
    }

    /// A stored collection with the key is the one that `keyed` names.
    pub proof fn lemma_keyed(&self, i: int, owner: Seq<char>, id: Seq<char>)
        requires
            self.wf(),
            0 <= i < self.view().len(),
            is_keyed(self.view()[i], owner, id),
        ensures
            self.has_key(owner, id),
            self.keyed(owner, id) == self.view()[i],
    {
        let j = choose|j: int| 0 <= j < self.view().len() && is_keyed(self.view()[j], owner, id);
        if j != i {
            self.lemma_ids_unique(i, j);
        }
    }

    pub fn new() -> (r: CollectionStore)
        ensures
            r.wf(),
            r.view().len() == 0,
    {
        CollectionStore { entries: Vec::new() }
    }

    pub fn len(&self) -> (r: usize)
        ensures
            r == self.view().len(),
    {
        self.entries.len()
    }

    /// The stored collection at position `i`.
    pub fn get(&self, i: usize) -> (r: &Collection)
        requires
            i < self.view().len(),
        ensures
            *r == self.view()[i as int],
    {
        &self.entries[i]
    }

    /// Two stored collections never share an identifier.
    pub proof fn lemma_ids_unique(&self, i: int, j: int)
        requires
            self.wf(),
            0 <= i < self.view().len(),
            0 <= j < self.view().len(),
            i != j,
        ensures
            coll_id(self.view()[i]) != coll_id(self.view()[j]),
    {
        if i < j {
            assert(id_lt()(self.view()[i], self.view()[j]));
            lemma_seq_lt_irreflexive(coll_id(self.view()[i]));
        } else {
            assert(id_lt()(self.view()[j], self.view()[i]));
            lemma_seq_lt_irreflexive(coll_id(self.view()[i]));
        }
    }

    /// Binary search by identifier: where a collection with identifier `id` stands, or
    /// where it would have to be inserted.
    fn search(&self, id: &String) -> (r: (bool, usize))
        requires
            self.wf(),
        ensures
            r.1 <= self.view().len(),
            forall|j: int| 0 <= j < r.1 ==> seq_lt(coll_id(#[trigger] self.view()[j]), id@),
            r.0 ==> r.1 < self.view().len() && coll_id(self.view()[r.1 as int]) == id@,
            !r.0 ==> forall|j: int|
                r.1 <= j < self.view().len() ==> seq_lt(id@, coll_id(#[trigger] self.view()[j])),
    {
        let mut lo: usize = 0;
        let mut hi: usize = self.entries.len();
        while lo < hi
            invariant
                self.wf(),
                lo <= hi <= self.entries@.len(),
                forall|j: int| 0 <= j < lo ==> seq_lt(coll_id(#[trigger] self.entries@[j]), id@),
                forall|j: int| hi <= j < self.entries@.len() ==> seq_lt(id@, coll_id(#[trigger] self.entries@[j])),
            decreases hi - lo,
        {
            let mid = lo + (hi - lo) / 2;
            let e = &self.entries[mid];
            let cid = collection_id(e.name.clone(), e.symbol.clone());
            let ghost m = self.entries@[mid as int];
            if cid == *id {
                proof {
                    assert forall|j: int| 0 <= j < mid implies seq_lt(
                        coll_id(#[trigger] self.entries@[j]),
                        id@,
                    ) by {
                        assert(id_lt()(self.entries@[j], m));
                    }
                }
                return (true, mid);
            }
            if str_lt(cid.as_str(), id.as_str()) {
                proof {
                    assert forall|j: int| 0 <= j < mid + 1 implies seq_lt(
                        coll_id(#[trigger] self.entries@[j]),
                        id@,
                    ) by {
                        if j < mid {
                            assert(id_lt()(self.entries@[j], m));
                            lemma_seq_lt_transitive(coll_id(self.entries@[j]), coll_id(m), id@);
                        }
                    }
                }
                lo = mid + 1;
            } else {
                proof {
                    lemma_seq_lt_total(cid@, id@);
                    assert forall|j: int| mid <= j < self.entries@.len() implies seq_lt(
                        id@,
                        coll_id(#[trigger] self.entries@[j]),
                    ) by {
                        if j > mid {
                            assert(id_lt()(m, self.entries@[j]));
                            lemma_seq_lt_transitive(id@, coll_id(m), coll_id(self.entries@[j]));
                        }
                    }
                }
                hi = mid;
            }
        }
        (false, lo)
    }

    /// The position of the collection with identifier `id`, whoever owns it.
    pub fn position_of_id(&self, id: &String) -> (r: Option<usize>)
        requires
            self.wf(),
        ensures
            match r {
                Some(i) => i < self.view().len() && coll_id(self.view()[i as int]) == id@,
                None => !self.has_id(id@),
            },
    {
        let (found, i) = self.search(id);
        if found {
            Some(i)
        } else {
            proof {
                assert forall|j: int| 0 <= j < self.view().len() implies coll_id(
                    #[trigger] self.view()[j],
                ) != id@ by {
                    lemma_seq_lt_irreflexive(id@);
                }
            }
            None
        }
    }

    /// The position of the collection of `owner` with identifier `id`.
    pub fn position_of(&self, owner: &String, id: &String) -> (r: Option<usize>)
        requires
            self.wf(),
        ensures
            match r {
                Some(i) => i < self.view().len() && is_keyed(self.view()[i as int], owner@, id@),
                None => !self.has_key(owner@, id@),
            },
    {
        match self.position_of_id(id) {
            None => None,
            Some(i) => {
                let c = &self.entries[i];
                let same_owner = match &c.owner {
                    Some(o) => *o == *owner,
                    None => false,
                };
                if same_owner {
                    Some(i)
                } else {
                    proof {
                        assert forall|j: int| 0 <= j < self.view().len() implies !is_keyed(
                            #[trigger] self.view()[j],
                            owner@,
                            id@,
                        ) by {
                            if j != i {
                                self.lemma_ids_unique(i as int, j);
                            }
                        }
                    }
                    None
                }
            },
        }
    }

    /// Adds a collection. Fails with `CollectionAlreadyExists`, and changes nothing, when
    /// a stored collection (of any owner) has the same identifier.
    pub fn insert(&mut self, c: Collection) -> (r: Result<(), ContractError>)
        requires
            old(self).wf(),
            stored_collection_ok(c),
        ensures
            final(self).wf(),
            old(self).has_id(coll_id(c)) ==> (r matches Err(
                ContractError::CollectionAlreadyExists { .. },
            )) && final(self).view() == old(self).view(),
            !old(self).has_id(coll_id(c)) ==> r is Ok && exists|p: int|
                0 <= p <= old(self).view().len() && final(self).view() == old(self).view().insert(p, c),
    {
        let id = collection_id(c.name.clone(), c.symbol.clone());
        if self.position_of_id(&id).is_some() {
            return Err(
                ContractError::CollectionAlreadyExists {
                    text: to_owned_string("A collection with this name and symbol already exists"),
                },
            );
        }
        let (_, p) = self.search(&id);
        proof {
            let s = self.entries@;
            assert forall|j: int| 0 <= j < p implies #[trigger] id_lt()(s[j], c) by {}
        }
        proof {
            let s = self.entries@;
            assert forall|j: int| p <= j < s.len() implies #[trigger] id_lt()(c, s[j]) by {}
            lemma_sorted_insert(s, id_lt(), p as int, c);
        }
        self.entries.insert(p, c);
        proof {
            let s = self.entries@;
            assert forall|i: int| 0 <= i < s.len() implies stored_collection_ok(#[trigger] s[i]) by {
                if i < p {
                    assert(s[i] == old(self).view()[i]);
                } else if i > p {
                    assert(s[i] == old(self).view()[i - 1]);
                }
            }
        }
        Ok(())
    }

    /// Puts `c` in place of the stored collection at position `i`, which has the same
    /// identifier.
    pub fn replace(&mut self, i: usize, c: Collection)
        requires
            old(self).wf(),
            i < old(self).view().len(),
            coll_id(c) == coll_id(old(self).view()[i as int]),
            stored_collection_ok(c),
        ensures
            final(self).wf(),
            final(self).view() == old(self).view().update(i as int, c),
    {
        self.entries.set(i, c);
        proof {
            let s = self.entries@;
            let o = old(self).view();
            assert forall|a: int, b: int| 0 <= a < b < s.len() implies #[trigger] id_lt()(s[a], s[b]) by {
                assert(id_lt()(o[a], o[b]));
            }
            assert forall|k: int| 0 <= k < s.len() implies stored_collection_ok(#[trigger] s[k]) by {
                if k != i {
                    assert(s[k] == o[k]);
                }
            }
        }
    }

    /// Takes out the stored collection at position `i`.
    pub fn remove_at(&mut self, i: usize) -> (r: Collection)
        requires
            old(self).wf(),
            i < old(self).view().len(),
        ensures
            final(self).wf(),
            r == old(self).view()[i as int],
            final(self).view() == old(self).view().remove(i as int),
    {
        proof {
            lemma_sorted_remove(self.entries@, id_lt(), i as int);
        }
        let r = self.entries.remove(i);
        proof {
            let s = self.entries@;
            let o = old(self).view();
            assert forall|k: int| 0 <= k < s.len() implies stored_collection_ok(#[trigger] s[k]) by {
                if k < i {
                    assert(s[k] == o[k]);
                } else {
                    assert(s[k] == o[k + 1]);
                }
            }
        }
        r
    }
}

} // verus!
