use vstd::prelude::*;
use crate::error::ContractError;
use crate::order::{
    key_lt, lemma_key_lt_irreflexive, lemma_key_lt_total, lemma_key_lt_transitive,
    lemma_sorted_insert, lemma_sorted_remove, sorted_by,
};
use crate::state::Item;
use crate::text::{collection_id, seq_lt, spec_collection_id, str_lt, to_owned_string};

verus! {

/// The key of an item: (collection owner, collection identifier, item name).
pub open spec fn item_key(i: Item) -> (Seq<char>, Seq<char>, Seq<char>) {
    (i.collection_owner@, spec_collection_id(i.collection_name@, i.collection_symbol@), i.name@)
}

pub open spec fn item_lt() -> spec_fn(Item, Item) -> bool {
    |a: Item, b: Item| key_lt(item_key(a), item_key(b))
}

/// The item belongs to the collection `id` of `owner`.
pub open spec fn in_collection(owner: Seq<char>, id: Seq<char>) -> spec_fn(Item) -> bool {
    |i: Item| item_key(i).0 == owner && item_key(i).1 == id
}

/// The item belongs to the collection `id` of `owner` and, when a cursor is given, its
/// name comes strictly after the cursor.
pub open spec fn in_collection_after(owner: Seq<char>, id: Seq<char>, after: Option<Seq<char>>) -> spec_fn(
    Item,
) -> bool {
    |i: Item|
        item_key(i).0 == owner && item_key(i).1 == id && match after {
            Some(a) => seq_lt(a, i.name@),
            None => true,
        }
}

/// `r` holds copies of the items of `s`, in order.
pub open spec fn copies_of(r: Seq<Item>, s: Seq<Item>) -> bool {
    r.len() == s.len() && forall|k: int| 0 <= k < r.len() ==> (#[trigger] r[k]).equiv(s[k])
}

/// The staged items of every collection, kept in ascending key order; a key occurs at
/// most once.
pub struct ItemStore {
    entries: Vec<Item>,
}

impl ItemStore {
    pub closed spec fn view(&self) -> Seq<Item> {
        self.entries@
    }

    pub open spec fn wf(&self) -> bool {
        sorted_by(self.view(), item_lt())
    }

    pub open spec fn has_key(&self, key: (Seq<char>, Seq<char>, Seq<char>)) -> bool {
        exists|i: int| 0 <= i < self.view().len() && item_key(#[trigger] self.view()[i]) == key
    }

    /// The staged item with the given key (meaningful when there is one).
    pub open spec fn keyed(&self, key: (Seq<char>, Seq<char>, Seq<char>)) -> Item {
        self.view()[choose|i: int| 0 <= i < self.view().len() && item_key(self.view()[i]) == key]
    }

    /// A staged item with the key is the one that `keyed` names.
    pub proof fn lemma_keyed(&self, i: int, key: (Seq<char>, Seq<char>, Seq<char>))
        requires
            self.wf(),
            0 <= i < self.view().len(),
            item_key(self.view()[i]) == key,
        ensures
            self.has_key(key),
            self.keyed(key) == self.view()[i],
    {
        let j = choose|j: int| 0 <= j < self.view().len() && item_key(self.view()[j]) == key;
        if j != i {
            self.lemma_keys_unique(i, j);
        }
    }

    /// Removes the item named `name` from the collection `id` of `owner`, if staged, and
    /// hands it back; every other item stays.
    pub fn remove_key(&mut self, owner: &String, id: &String, name: &String) -> (r: Option<Item>)
        requires
            old(self).wf(),
        ensures
            final(self).wf(),
            r is Some <==> old(self).has_key((owner@, id@, name@)),
            r matches Some(it) ==> it == old(self).keyed((owner@, id@, name@)),
            forall|x: Item|
                #[trigger] final(self).view().contains(x) <==> (old(self).view().contains(x) && item_key(x) != (
                    owner@,
                    id@,
                    name@,
                )),
    {
        let ghost before = self.view();
        match self.position_of(owner, id, name) {
            None => {
                proof {
                    assert forall|x: Item|
                        #[trigger] self.view().contains(x) <==> (before.contains(x) && item_key(x) != (
                            owner@,
                            id@,
                            name@,
                        )) by {
                        if before.contains(x) {
                            let w = choose|w: int| 0 <= w < before.len() && before[w] == x;
                            assert(item_key(before[w]) != (owner@, id@, name@));
                        }
                    }
                }
                None
            },
            Some(i) => {
                proof {
                    self.lemma_keyed(i as int, (owner@, id@, name@));
                    assert forall|a: int, b: int| 0 <= a < b < before.len() implies before[a]
                        != before[b] by {
                        self.lemma_keys_unique(a, b);
                    }
                }
                let it = self.remove_at(i);
                proof {
                    assert forall|x: Item|
                        #[trigger] self.view().contains(x) <==> (before.contains(x) && item_key(x) != (
                            owner@,
                            id@,
                            name@,
                        )) by {
                        lemma_remove_contains(before, i as int, x);
                        if before.contains(x) {
                            let w = choose|w: int| 0 <= w < before.len() && before[w] == x;
                            if w != i {
                                assert(item_key(before[w]) != item_key(before[i as int])) by {
                                    if w < i {
                                        assert(item_lt()(before[w], before[i as int]));
                                    } else {
                                        assert(item_lt()(before[i as int], before[w]));
                                    }
                                    lemma_key_lt_irreflexive(item_key(before[w]));
                                }
                            }
                        }
                    }
                }
                Some(it)
            },
        }
    }

    pub fn new() -> (r: ItemStore)
        ensures
            r.wf(),
            r.view().len() == 0,
    {
        ItemStore { entries: Vec::new() }
    }

    pub fn len(&self) -> (r: usize)
        ensures
            r == self.view().len(),
    {
        self.entries.len()
    }

    /// The staged item at position `i`.
    pub fn get(&self, i: usize) -> (r: &Item)
        requires
            i < self.view().len(),
        ensures
            *r == self.view()[i as int],
    {
        &self.entries[i]
    }

    /// Two stored items never share a key.
    pub proof fn lemma_keys_unique(&self, i: int, j: int)
        requires
            self.wf(),
            0 <= i < self.view().len(),
            0 <= j < self.view().len(),
            i != j,
        ensures
            item_key(self.view()[i]) != item_key(self.view()[j]),
            self.view()[i] != self.view()[j],
    {
        lemma_key_lt_irreflexive(item_key(self.view()[i]));
        if i < j {
            assert(item_lt()(self.view()[i], self.view()[j]));
        } else {
            assert(item_lt()(self.view()[j], self.view()[i]));
        }
    }

    /// The position of the item named `name` in the collection `id` of `owner`.
    pub fn position_of(&self, owner: &String, id: &String, name: &String) -> (r: Option<usize>)
        ensures
            match r {
                Some(i) => i < self.view().len() && item_key(self.view()[i as int]) == (
                    owner@,
                    id@,
                    name@,
                ),
                None => !self.has_key((owner@, id@, name@)),
            },
    {
        let mut i: usize = 0;
        while i < self.entries.len()
            invariant
                i <= self.entries@.len(),
                forall|j: int| 0 <= j < i ==> item_key(#[trigger] self.entries@[j]) != (owner@, id@, name@),
            decreases self.entries.len() - i,
        {
            let e = &self.entries[i];
            if e.collection_owner == *owner && e.name == *name {
                let eid = collection_id(e.collection_name.clone(), e.collection_symbol.clone());
                if eid == *id {
                    return Some(i);
                }
            }
            i = i + 1;
        }
        None
    }

    /// A copy of the item named `name` in the collection `id` of `owner`, if staged.
    pub fn load(&self, owner: &String, id: &String, name: &String) -> (r: Option<Item>)
        ensures
            match r {
                Some(it) => exists|i: int|
                    0 <= i < self.view().len() && item_key(#[trigger] self.view()[i]) == (owner@, id@, name@)
                        && it.equiv(self.view()[i]),
                None => !self.has_key((owner@, id@, name@)),
            },
    {
        match self.position_of(owner, id, name) {
            Some(i) => Some(self.entries[i].duplicate()),
            None => None,
        }
    }

    /// Stages an item. Fails with `ItemAlreadyExists`, and changes nothing, when an item
    /// with the same key is staged.
    pub fn insert(&mut self, it: Item) -> (r: Result<(), ContractError>)
        requires
            old(self).wf(),
        ensures
            final(self).wf(),
            old(self).has_key(item_key(it)) ==> (r matches Err(ContractError::ItemAlreadyExists { .. }))
                && final(self).view() == old(self).view(),
            !old(self).has_key(item_key(it)) ==> r is Ok && exists|p: int|
                0 <= p <= old(self).view().len() && final(self).view() == old(self).view().insert(p, it),
    {
        let id = collection_id(it.collection_name.clone(), it.collection_symbol.clone());
        if self.position_of(&it.collection_owner, &id, &it.name).is_some() {
            return Err(
                ContractError::ItemAlreadyExists {
                    text: to_owned_string("An item with this name already exists in the collection"),
                },
            );
        }
        let mut p: usize = 0;
        while p < self.entries.len()
            invariant
                p <= self.entries@.len(),
                id@ == item_key(it).1,
                !self.has_key(item_key(it)),
                forall|j: int| 0 <= j < p ==> #[trigger] item_lt()(self.entries@[j], it),
            ensures
                p <= self.entries@.len(),
                forall|j: int| 0 <= j < p ==> #[trigger] item_lt()(self.entries@[j], it),
                p < self.entries@.len() ==> item_lt()(it, self.entries@[p as int]),
            decreases self.entries.len() - p,
        {
            let e = &self.entries[p];
            let before = if it.collection_owner != e.collection_owner {
                str_lt(it.collection_owner.as_str(), e.collection_owner.as_str())
            } else {
                let eid = collection_id(e.collection_name.clone(), e.collection_symbol.clone());
                if id != eid {
                    str_lt(id.as_str(), eid.as_str())
                } else {
                    str_lt(it.name.as_str(), e.name.as_str())
                }
            };
            if before {
                break;
            }
            proof {
                lemma_key_lt_total(item_key(self.entries@[p as int]), item_key(it));
                assert(item_key(self.view()[p as int]) != item_key(it));
            }
            p = p + 1;
        }
        proof {
            let s = self.entries@;
            assert forall|j: int| p <= j < s.len() implies #[trigger] item_lt()(it, s[j]) by {
                if j > p {
                    assert(item_lt()(s[p as int], s[j]));
                    lemma_key_lt_transitive(item_key(it), item_key(s[p as int]), item_key(s[j]));
                }
            }
            lemma_sorted_insert(s, item_lt(), p as int, it);
        }
        self.entries.insert(p, it);
        Ok(())
    }

    /// Takes out the item at position `i`.
    pub fn remove_at(&mut self, i: usize) -> (r: Item)
        requires
            old(self).wf(),
            i < old(self).view().len(),
        ensures
            final(self).wf(),
            r == old(self).view()[i as int],
            final(self).view() == old(self).view().remove(i as int),
    {
        proof {
            lemma_sorted_remove(self.entries@, item_lt(), i as int);
        }
        self.entries.remove(i)
    }

    /// Copies of the items of the collection `id` of `owner` whose names come after
    /// `after` (all of them without a cursor), in ascending name order.
    pub fn select(&self, owner: &String, id: &String, after: &Option<String>) -> (r: Vec<Item>)
        ensures
            copies_of(
                r@,
                self.view().filter(
                    in_collection_after(
                        owner@,
                        id@,
                        match after {
                            Some(a) => Some(a@),
                            None => None,
                        },
                    ),
                ),
            ),
    {
        let ghost cursor = match after {
            Some(a) => Some(a@),
            None => None,
        };
        let ghost p = in_collection_after(owner@, id@, cursor);
        let mut r: Vec<Item> = Vec::new();
        let mut i: usize = 0;
        while i < self.entries.len()
            invariant
                i <= self.entries@.len(),
                p == in_collection_after(owner@, id@, cursor),
                cursor == match after {
                    Some(a) => Some(a@),
                    None => None::<Seq<char>>,
                },
                copies_of(r@, self.entries@.subrange(0, i as int).filter(p)),
            decreases self.entries.len() - i,
        {
            let e = &self.entries[i];
            let ghost before = self.entries@.subrange(0, i as int);
            assert(self.entries@.subrange(0, i + 1) =~= before.push(*e));
            proof {
                before.lemma_filter_push(*e, p);
            }
            let mut keep = e.collection_owner == *owner;
            if keep {
                let eid = collection_id(e.collection_name.clone(), e.collection_symbol.clone());
                keep = eid == *id;
            }
            if keep {
                keep = match after {
                    Some(a) => str_lt(a.as_str(), e.name.as_str()),
                    None => true,
                };
            }
            if keep {
                r.push(e.duplicate());
            }
            i = i + 1;
        }
        assert(self.entries@.subrange(0, i as int) =~= self.entries@);
        r
    }

    /// Removes every item of the collection `id` of `owner` in two phases: first the
    /// names of its items are collected, then each is removed by its key.
    pub fn remove_all_in(&mut self, owner: &String, id: &String)
        requires
            old(self).wf(),
        ensures
            final(self).wf(),
            forall|x: Item|
                #[trigger] final(self).view().contains(x) <==> (old(self).view().contains(x) && !in_collection(
                    owner@,
                    id@,
                )(x)),
    {
        let ghost pred = in_collection(owner@, id@);
        let ghost start = self.view();
        let staged = self.select(owner, id, &None);
        assert(in_collection_after(owner@, id@, None) =~= pred);
        let ghost f = start.filter(pred);
        let mut names: Vec<String> = Vec::new();
        let mut j: usize = 0;
        while j < staged.len()
            invariant
                j <= staged@.len(),
                copies_of(staged@, f),
                names@.len() == j,
                forall|k: int| 0 <= k < j ==> (#[trigger] names@[k])@ == f[k].name@,
            decreases staged.len() - j,
        {
            names.push(staged[j].name.clone());
            j = j + 1;
        }
        let mut k: usize = 0;
        while k < names.len()
            invariant
                self.wf(),
                k <= names@.len(),
                names@.len() == f.len(),
                f == start.filter(pred),
                pred == in_collection(owner@, id@),
                forall|q: int| 0 <= q < names@.len() ==> (#[trigger] names@[q])@ == f[q].name@,
                forall|x: Item|
                    #[trigger] self.view().contains(x) <==> (start.contains(x) && !(pred(x) && named_in(
                        names@,
                        k as int,
                        x.name@,
                    ))),
            decreases names.len() - k,
        {
            let ghost before = self.view();
            let ghost name = names@[k as int]@;
            match self.position_of(owner, id, &names[k]) {
                Some(i) => {
                    proof {
                        assert forall|a: int, b: int| 0 <= a < b < before.len() implies before[a]
                            != before[b] by {
                            self.lemma_keys_unique(a, b);
                        }
                    }
                    self.remove_at(i);
                    proof {
                        assert forall|x: Item|
                            #[trigger] self.view().contains(x) <==> (start.contains(x) && !(pred(x) && named_in(
                                names@,
                                k + 1,
                                x.name@,
                            ))) by {
                            lemma_remove_contains(before, i as int, x);
                            if before.contains(x) {
                                let w = choose|w: int| 0 <= w < before.len() && before[w] == x;
                                if w != i {
                                    assert(item_key(before[w]) != item_key(before[i as int])) by {
                                        if w < i {
                                            assert(item_lt()(before[w], before[i as int]));
                                        } else {
                                            assert(item_lt()(before[i as int], before[w]));
                                        }
                                        lemma_key_lt_irreflexive(item_key(before[w]));
                                    }
                                }
                            }
                        }
                    }
                },
                None => {
                    proof {
                        assert forall|x: Item|
                            #[trigger] self.view().contains(x) <==> (start.contains(x) && !(pred(x) && named_in(
                                names@,
                                k + 1,
                                x.name@,
                            ))) by {
                            if before.contains(x) && pred(x) && x.name@ == name {
                                let w = choose|w: int| 0 <= w < before.len() && before[w] == x;
                                assert(item_key(before[w]) == (owner@, id@, name));
                            }
                        }
                    }
                },
            }
            k = k + 1;
        }
        proof {
            assert forall|x: Item| self.view().contains(x) <==> (start.contains(x) && !pred(x)) by {
                if start.contains(x) && pred(x) {
                    let w = choose|w: int| 0 <= w < start.len() && start[w] == x;
                    start.lemma_filter_contains(pred, w);
                    let q = choose|q: int| 0 <= q < f.len() && f[q] == x;
                    lemma_named_in(names@, names@.len() as int, q, x.name@);
                }
            }
        }
    }

    /// How many items the collection `id` of `owner` has staged.
    pub fn count_in(&self, owner: &String, id: &String) -> (r: usize)
        ensures
            r == self.view().filter(in_collection(owner@, id@)).len(),
    {
        let ghost p = in_collection(owner@, id@);
        let mut n: usize = 0;
        let mut i: usize = 0;
        while i < self.entries.len()
            invariant
                i <= self.entries@.len(),
                p == in_collection(owner@, id@),
                n == self.entries@.subrange(0, i as int).filter(p).len(),
                n <= i,
            decreases self.entries.len() - i,
        {
            let e = &self.entries[i];
            let ghost before = self.entries@.subrange(0, i as int);
            assert(self.entries@.subrange(0, i + 1) =~= before.push(*e));
            proof {
                before.lemma_filter_push(*e, p);
            }
            if e.collection_owner == *owner {
                let eid = collection_id(e.collection_name.clone(), e.collection_symbol.clone());
                if eid == *id {
                    n = n + 1;
                }
            }
            i = i + 1;
        }
        assert(self.entries@.subrange(0, i as int) =~= self.entries@);
        n
    }
}

/// One of the first `k` names is `n`.
pub open spec fn named_in(names: Seq<String>, k: int, n: Seq<char>) -> bool
    decreases k,
{
    if k <= 0 {
        false
    } else {
        names[k - 1]@ == n || named_in(names, k - 1, n)
    }
}

proof fn lemma_named_in(names: Seq<String>, k: int, q: int, n: Seq<char>)
    requires
        0 <= q < k,
        names[q]@ == n,
    ensures
        named_in(names, k, n),
    decreases k,
{
    if q < k - 1 {
        lemma_named_in(names, k - 1, q, n);
    }
}

proof fn lemma_remove_contains(s: Seq<Item>, i: int, x: Item)
    requires
        0 <= i < s.len(),
        forall|a: int, b: int| 0 <= a < b < s.len() ==> s[a] != s[b],
    ensures
        s.remove(i).contains(x) <==> (s.contains(x) && x != s[i]),
{
    let t = s.remove(i);
    if t.contains(x) {
        let j = choose|j: int| 0 <= j < t.len() && t[j] == x;
        let w = if j < i { j } else { j + 1 };
        assert(s[w] == x);
        if w < i {
            assert(s[w] != s[i]);
        } else {
            assert(s[i] != s[w]);
        }
    }
    if s.contains(x) && x != s[i] {
        let w = choose|w: int| 0 <= w < s.len() && s[w] == x;
        let j = if w < i { w } else { w - 1 };
        assert(t[j] == x);
    }
}

} // verus!
