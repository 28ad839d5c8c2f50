use vstd::prelude::*;
use crate::contract::ContractState;
use crate::items::{copies_of, in_collection, in_collection_after, item_key};
use crate::msg::{
    CollectionResponse, CollectionsResponse, CollectionsWithParamsResponse, ItemCountResponse,
    ItemResponse, ItemsResponse,
};
use crate::state::{Collection, Item, COLLECTION_STATUS_ACTIVATED};
use crate::store::{CollectionStore, coll_id};
use crate::order::{lemma_sorted_insert, sorted_by};
use crate::text::{
    collection_id, has_substring, seq_lt, spec_collection_id, str_contains, str_lt,
    to_owned_string,
};

verus! {

pub const DEFAULT_LIMIT: u32 = 10;

pub const MAX_LIMIT: u32 = 20;

/// The page size that a query asks for: the given one (10 by default), at most 20.
pub open spec fn page_size(limit: Option<u32>) -> int {
    let l = match limit {
        Some(l) => l as int,
        None => DEFAULT_LIMIT as int,
    };
    if l < MAX_LIMIT {
        l
    } else {
        MAX_LIMIT as int
    }
}

/// `r` holds copies of the collections of `s`, in order.
pub open spec fn collection_copies(r: Seq<Collection>, s: Seq<Collection>) -> bool {
    r.len() == s.len() && forall|k: int| 0 <= k < r.len() ==> (#[trigger] r[k]).equiv(s[k])
}

pub open spec fn opt_view(s: Option<String>) -> Option<Seq<char>> {
    match s {
        Some(x) => Some(x@),
        None => None,
    }
}

/// The collection is owned by `owner` (any owner without one) and its identifier comes
/// after the cursor (any without one).
pub open spec fn listed_after(owner: Option<Seq<char>>, after: Option<Seq<char>>) -> spec_fn(
    Collection,
) -> bool {
    |c: Collection|
        (match owner {
            Some(o) => c.owner matches Some(x) && x@ == o,
            None => true,
        }) && match after {
            Some(a) => seq_lt(a, coll_id(c)),
            None => true,
        }
}

/// The description of a collection, empty when it has none.
pub open spec fn description_text(c: Collection) -> Seq<char> {
    match c.description {
        Some(d) => d@,
        None => Seq::empty(),
    }
}

/// The category of a collection, empty when it has none.
pub open spec fn category_text(c: Collection) -> Seq<char> {
    match c.spec_category() {
        Some(x) => x,
        None => Seq::empty(),
    }
}

pub open spec fn spec_contains_keyword(c: Collection, keyword: Seq<char>) -> bool {
    has_substring(c.name@, keyword) || has_substring(description_text(c), keyword)
}

/// The collection is activated, contains the keyword (if one is given) in its name or
/// description, and has the category (if one is given).
pub open spec fn active_match(keyword: Option<Seq<char>>, category: Option<Seq<char>>) -> spec_fn(
    Collection,
) -> bool {
    |c: Collection|
        c.status == Some(COLLECTION_STATUS_ACTIVATED) && (match keyword {
            Some(k) => spec_contains_keyword(c, k),
            None => true,
        }) && match category {
            Some(x) => category_text(c) == x,
            None => true,
        }
}

/// The date a listing orders by, creation or last update; a missing date sorts last.
pub open spec fn date_key(c: Collection, by_updated: bool) -> int {
    let d = if by_updated {
        c.date_updated
    } else {
        c.date_created
    };
    match d {
        Some(t) => t + 1,
        None => 0,
    }
}

pub open spec fn date_not_before(by_updated: bool) -> spec_fn(Collection, Collection) -> bool {
    |a: Collection, b: Collection| date_key(a, by_updated) >= date_key(b, by_updated)
}

/// Newest first, by creation or by last update.
pub open spec fn sorted_by_date(s: Seq<Collection>, by_updated: bool) -> bool {
    sorted_by(s, date_not_before(by_updated))
}

/// `p` lists each position below `n` exactly once.
pub open spec fn is_perm(p: Seq<int>, n: int) -> bool {
    &&& p.len() == n
    &&& forall|k: int| 0 <= k < p.len() ==> 0 <= #[trigger] p[k] < n
    &&& forall|a: int, b: int| 0 <= a < p.len() && 0 <= b < p.len() && a != b ==> p[a] != p[b]
}

/// `r` holds copies of the collections of `s`, each once, newest first by creation or by
/// last update, collections of equal date keeping their order in `s`.
pub open spec fn stable_date_sort(r: Seq<Collection>, s: Seq<Collection>, by_updated: bool) -> bool {
    exists|p: Seq<int>| #[trigger] sorted_with_perm(r, s, p, by_updated)
}

/// `p` shows that `r` is `s` stably sorted by date, newest first: `r[k]` copies `s[p[k]]`.
pub open spec fn sorted_with_perm(r: Seq<Collection>, s: Seq<Collection>, p: Seq<int>, by_updated: bool) -> bool {
    &&& is_perm(p, s.len() as int)
    &&& r.len() == s.len()
    &&& forall|k: int| 0 <= k < r.len() ==> (#[trigger] r[k]).equiv(s[p[k]])
    &&& sorted_by_date(r, by_updated)
    &&& forall|a: int, b: int|
        0 <= a < b < r.len() && date_key(r[a], by_updated) == date_key(r[b], by_updated) ==> p[a]
            < p[b]
}

fn date_of(c: &Collection, by_updated: bool) -> (r: u128)
    ensures
        r == date_key(*c, by_updated),
{
    let d = if by_updated {
        c.date_updated
    } else {
        c.date_created
    };
    match d {
        Some(t) => t as u128 + 1,
        None => 0,
    }
}

/// Copies of the collections of `v`, newest first by creation or by last update.
pub fn sort_by_date(v: &Vec<Collection>, by_updated: bool) -> (r: Vec<Collection>)
    ensures
        stable_date_sort(r@, v@, by_updated),
{
    let ghost ge = date_not_before(by_updated);
    let mut r: Vec<Collection> = Vec::new();
    let ghost mut p: Seq<int> = Seq::empty();
    let mut i: usize = 0;
    while i < v.len()
        invariant
            i <= v@.len(),
            ge == date_not_before(by_updated),
            r@.len() == i,
            is_perm(p, i as int),
            forall|k: int| 0 <= k < r@.len() ==> (#[trigger] r@[k]).equiv(v@[p[k]]),
            sorted_by(r@, ge),
            forall|a: int, b: int|
                0 <= a < b < r@.len() && date_key(r@[a], by_updated) == date_key(r@[b], by_updated)
                    ==> p[a] < p[b],
        decreases v.len() - i,
    {
        let x = v[i].duplicate();
        let kx = date_of(&x, by_updated);
        let mut j: usize = 0;
        while j < r.len() && date_of(&r[j], by_updated) >= kx
            invariant
                j <= r@.len(),
                kx == date_key(x, by_updated),
                forall|a: int| 0 <= a < j ==> date_key(#[trigger] r@[a], by_updated) >= kx,
            decreases r.len() - j,
        {
            j = j + 1;
        }
        proof {
            let s0 = r@;
            assert forall|a: int| j <= a < s0.len() implies #[trigger] ge(x, s0[a]) by {
                if a > j {
                    assert(ge(s0[j as int], s0[a]));
                }
            }
            assert forall|a: int| 0 <= a < j implies #[trigger] ge(s0[a], x) by {}
            lemma_sorted_insert(s0, ge, j as int, x);
        }
        let ghost old_r = r@;
        let ghost old_p = p;
        r.insert(j, x);
        proof {
            p = old_p.insert(j as int, i as int);
            assert forall|k: int| 0 <= k < r@.len() implies (#[trigger] r@[k]).equiv(v@[p[k]]) by {
                if k < j {
                    assert(r@[k] == old_r[k] && p[k] == old_p[k]);
                } else if k > j {
                    assert(r@[k] == old_r[k - 1] && p[k] == old_p[k - 1]);
                }
            }
            assert forall|a: int, b: int|
                0 <= a < p.len() && 0 <= b < p.len() && a != b implies p[a] != p[b] by {
                let oa = if a < j { a } else { a - 1 };
                let ob = if b < j { b } else { b - 1 };
                if a != j as int && b != j as int {
                    assert(p[a] == old_p[oa] && p[b] == old_p[ob]);
                } else if a == j as int {
                    assert(p[b] == old_p[ob]);
                } else {
                    assert(p[a] == old_p[oa]);
                }
            }
            assert forall|k: int| 0 <= k < p.len() implies 0 <= #[trigger] p[k] < i + 1 by {
                if k < j {
                    assert(p[k] == old_p[k]);
                } else if k > j {
                    assert(p[k] == old_p[k - 1]);
                }
            }
            assert forall|a: int, b: int|
                0 <= a < b < r@.len() && date_key(r@[a], by_updated) == date_key(r@[b], by_updated)
                    implies p[a] < p[b] by {
                if b < j {
                    assert(r@[a] == old_r[a] && r@[b] == old_r[b]);
                    assert(p[a] == old_p[a] && p[b] == old_p[b]);
                } else if b == j {
                    assert(p[a] == old_p[a]);
                    assert(0 <= old_p[a] < i);
                } else if a == j {
                    assert(r@[b] == old_r[b - 1]);
                    assert(date_key(old_r[j as int], by_updated) < kx);
                    if b - 1 > j {
                        assert(ge(old_r[j as int], old_r[b - 1]));
                    }
                } else if a < j {
                    assert(r@[a] == old_r[a] && r@[b] == old_r[b - 1]);
                    assert(p[a] == old_p[a] && p[b] == old_p[b - 1]);
                } else {
                    assert(r@[a] == old_r[a - 1] && r@[b] == old_r[b - 1]);
                    assert(p[a] == old_p[a - 1] && p[b] == old_p[b - 1]);
                }
            }
        }
        i = i + 1;
    }
    assert(sorted_with_perm(r@, v@, p, by_updated));
    r
}

fn limit_of(limit: Option<u32>) -> (r: usize)
    ensures
        r == page_size(limit),
{
    let l = match limit {
        Some(l) => l,
        None => DEFAULT_LIMIT,
    };
    if l < MAX_LIMIT {
        l as usize
    } else {
        MAX_LIMIT as usize
    }
}

/// A copy of the collection of `owner` with the given name and symbol, if there is one.
pub fn internal_get_collection(state: &ContractState, owner: &String, name: &String, symbol: &String) -> (r:
    Option<Collection>)
    requires
        state.wf(),
    ensures
        ({
            let id = spec_collection_id(name@, symbol@);
            &&& state.collections.has_key(owner@, id) ==> (r matches Some(c) && c.equiv(
                state.collections.keyed(owner@, id),
            ))
            &&& !state.collections.has_key(owner@, id) ==> r is None
        }),
{
    let id = collection_id(name.clone(), symbol.clone());
    match state.collections.position_of(owner, &id) {
        Some(i) => {
            proof {
                state.collections.lemma_keyed(i as int, owner@, id@);
            }
            Some(state.collections.get(i).duplicate())
        },
        None => None,
    }
}

pub fn get_collection(state: &ContractState, owner: &String, name: &String, symbol: &String) -> (r:
    CollectionResponse)
    requires
        state.wf(),
    ensures
        ({
            let id = spec_collection_id(name@, symbol@);
            &&& state.collections.has_key(owner@, id) ==> (r.collection matches Some(c) && c.equiv(
                state.collections.keyed(owner@, id),
            ))
            &&& !state.collections.has_key(owner@, id) ==> r.collection is None
        }),
{
    CollectionResponse { collection: internal_get_collection(state, owner, name, symbol) }
}

/// Copies of the collections of `owner` (of everyone without one) whose identifiers come
/// after `after`, in ascending identifier order, at most `limit` of them.
fn list_collections(store: &CollectionStore, owner: Option<&String>, after: &Option<String>, limit: usize) -> (r:
    Vec<Collection>)
    ensures
        ({
            let f = store.view().filter(
                listed_after(
                    match owner {
                        Some(o) => Some(o@),
                        None => None,
                    },
                    opt_view(*after),
                ),
            );
            collection_copies(
                r@,
                f.subrange(
                    0,
                    if limit < f.len() {
                        limit as int
                    } else {
                        f.len() as int
                    },
                ),
            )
        }),
{
    let ghost ow = match owner {
        Some(o) => Some(o@),
        None => None,
    };
    let ghost p = listed_after(ow, opt_view(*after));
    let ghost s = store.view();
    let mut r: Vec<Collection> = Vec::new();
    let mut i: usize = 0;
    while i < store.len()
        invariant
            i <= s.len(),
            s == store.view(),
            p == listed_after(ow, opt_view(*after)),
            ow == match owner {
                Some(o) => Some(o@),
                None => None::<Seq<char>>,
            },
            collection_copies(r@, s.subrange(0, i as int).filter(p)),
        decreases s.len() - i,
    {
        let c = store.get(i);
        let ghost before = s.subrange(0, i as int);
        assert(s.subrange(0, i + 1) =~= before.push(*c));
        proof {
            before.lemma_filter_push(*c, p);
        }
        let mut keep = match owner {
            Some(o) => match &c.owner {
                Some(x) => *x == *o,
                None => false,
            },
            None => true,
        };
        if keep {
            keep = match after {
                Some(a) => {
                    let cid = collection_id(c.name.clone(), c.symbol.clone());
                    str_lt(a.as_str(), cid.as_str())
                },
                None => true,
            };
        }
        if keep {
            r.push(c.duplicate());
        }
        i = i + 1;
    }
    assert(s.subrange(0, i as int) =~= s);
    let ghost full = r@;
    r.truncate(limit);
    proof {
        let f = s.filter(p);
        let n = if limit < f.len() {
            limit as int
        } else {
            f.len() as int
        };
        assert forall|k: int| 0 <= k < r@.len() implies (#[trigger] r@[k]).equiv(f.subrange(0, n)[k]) by {
            assert(r@[k] == full[k]);
        }
    }
    r
}

/// The collections of `owner` whose identifiers come after `start_after`, in ascending
/// identifier order, one page (10 by default, at most 20) of them.
pub fn get_collections(state: &ContractState, owner: &String, start_after: Option<String>, limit: Option<u32>) -> (r:
    CollectionsResponse)
    ensures
        ({
            let f = state.collections.view().filter(listed_after(Some(owner@), opt_view(start_after)));
            let n = if page_size(limit) < f.len() {
                page_size(limit)
            } else {
                f.len() as int
            };
            collection_copies(r.collections@, f.subrange(0, n))
        }),
{
    let lim = limit_of(limit);
    CollectionsResponse { collections: list_collections(&state.collections, Some(owner), &start_after, lim) }
}

/// The collections of every owner whose identifiers come after `start_after`, in
/// ascending identifier order, one page (10 by default, at most 20) of them.
pub fn get_all_collections(state: &ContractState, start_after: Option<String>, limit: Option<u32>) -> (r:
    CollectionsResponse)
    ensures
        ({
            let f = state.collections.view().filter(listed_after(None, opt_view(start_after)));
            let n = if page_size(limit) < f.len() {
                page_size(limit)
            } else {
                f.len() as int
            };
            collection_copies(r.collections@, f.subrange(0, n))
        }),
{
    let lim = limit_of(limit);
    CollectionsResponse { collections: list_collections(&state.collections, None, &start_after, lim) }
}

/// A stable sort of copies is a stable sort of the originals.
proof fn lemma_sorted_through_copies(r: Seq<Collection>, m: Seq<Collection>, s: Seq<Collection>, by_updated: bool)
    requires
        stable_date_sort(r, m, by_updated),
        collection_copies(m, s),
    ensures
        stable_date_sort(r, s, by_updated),
{
    let p = choose|p: Seq<int>| #[trigger] sorted_with_perm(r, m, p, by_updated);
    assert forall|k: int| 0 <= k < r.len() implies (#[trigger] r[k]).equiv(s[p[k]]) by {
        assert(r[k].equiv(m[p[k]]));
        assert(m[p[k]].equiv(s[p[k]]));
    }
    assert(sorted_with_perm(r, s, p, by_updated));
}

/// The category of a collection, or the empty string.
pub fn collection_category(collection: &Collection) -> (r: String)
    ensures
        r@ == category_text(*collection),
{
    match collection.category() {
        Some(c) => c,
        None => {
            proof {
                reveal_strlit("");
            }
            let e = to_owned_string("");
            assert(e@ =~= Seq::<char>::empty());
            e
        },
    }
}

pub fn is_category_of(collection: &Collection, category: &String) -> (r: bool)
    ensures
        r == (category_text(*collection) == category@),
{
    let cat = collection_category(collection);
    cat == *category
}

/// Whether the keyword occurs in the collection's name or description.
pub fn contains_keyword(collection: &Collection, keyword: &String) -> (r: bool)
    ensures
        r == spec_contains_keyword(*collection, keyword@),
{
    if str_contains(collection.name.as_str(), keyword.as_str()) {
        return true;
    }
    match &collection.description {
        Some(d) => str_contains(d.as_str(), keyword.as_str()),
        None => {
            proof {
                reveal_strlit("");
            }
            let empty = to_owned_string("");
            assert(empty@ =~= Seq::<char>::empty());
            str_contains(empty.as_str(), keyword.as_str())
        },
    }
}

/// Copies of the activated collections that match the keyword and category (each when
/// given), in the order of `all_colls`.
pub fn filter_collection_result_all(
    all_colls: &Vec<Collection>,
    keyword: &Option<String>,
    category: &Option<String>,
) -> (r: Vec<Collection>)
    ensures
        collection_copies(r@, all_colls@.filter(active_match(opt_view(*keyword), opt_view(*category)))),
{
    let ghost p = active_match(opt_view(*keyword), opt_view(*category));
    let ghost s = all_colls@;
    let mut r: Vec<Collection> = Vec::new();
    let mut i: usize = 0;
    while i < all_colls.len()
        invariant
            i <= s.len(),
            s == all_colls@,
            p == active_match(opt_view(*keyword), opt_view(*category)),
            collection_copies(r@, s.subrange(0, i as int).filter(p)),
        decreases s.len() - i,
    {
        let c = &all_colls[i];
        let ghost before = s.subrange(0, i as int);
        assert(s.subrange(0, i + 1) =~= before.push(*c));
        proof {
            before.lemma_filter_push(*c, p);
        }
        let mut keep = c.status == Some(COLLECTION_STATUS_ACTIVATED);
        if keep {
            keep = match keyword {
                Some(k) => contains_keyword(c, k),
                None => true,
            };
        }
        if keep {
            keep = match category {
                Some(x) => is_category_of(c, x),
                None => true,
            };
        }
        if keep {
            r.push(c.duplicate());
        }
        i = i + 1;
    }
    assert(s.subrange(0, i as int) =~= s);
    r
}

/// The page of matching collections that starts after skipping `start` (0 by default)
/// and holds at most one page size of them, with the number of all matches.
pub fn filter_collection_result(
    all_colls: &Vec<Collection>,
    keyword: &Option<String>,
    category: &Option<String>,
    start: Option<u32>,
    limit: Option<u32>,
) -> (r: (Vec<Collection>, usize))
    ensures
        ({
            let f = all_colls@.filter(active_match(opt_view(*keyword), opt_view(*category)));
            let skip = match start {
                Some(s) => s as int,
                None => 0int,
            };
            let from = if skip < f.len() {
                skip
            } else {
                f.len() as int
            };
            let to = if from + page_size(limit) < f.len() {
                from + page_size(limit)
            } else {
                f.len() as int
            };
            &&& r.1 == f.len()
            &&& collection_copies(r.0@, f.subrange(from, to))
        }),
{
    let lim = limit_of(limit);
    let skip: usize = match start {
        Some(s) => s as usize,
        None => 0,
    };
    let res = filter_collection_result_all(all_colls, keyword, category);
    let ghost f = all_colls@.filter(active_match(opt_view(*keyword), opt_view(*category)));
    let n = res.len();
    let from = if skip < n {
        skip
    } else {
        n
    };
    let to = if lim < n - from {
        from + lim
    } else {
        n
    };
    let mut page: Vec<Collection> = Vec::new();
    let mut j: usize = from;
    while j < to
        invariant
            from <= j <= to,
            to <= n,
            n == res@.len(),
            collection_copies(res@, f),
            page@.len() == j - from,
            forall|k: int| 0 <= k < page@.len() ==> (#[trigger] page@[k]).equiv(f[from + k]),
        decreases to - j,
    {
        page.push(res[j].duplicate());
        j = j + 1;
    }
    (page, n)
}

/// `page` and `total` are what a listing of the activated collections of `srt` that
/// match the keyword and category (each when given) hands out: the page after skipping
/// `start` (0 by default), and the number of all matches.
pub open spec fn active_page(
    srt: Seq<Collection>,
    keyword: Option<Seq<char>>,
    category: Option<Seq<char>>,
    start: Option<u32>,
    limit: Option<u32>,
    page: Seq<Collection>,
    total: Option<u32>,
) -> bool {
    let f = srt.filter(active_match(keyword, category));
    let skip = match start {
        Some(s) => s as int,
        None => 0int,
    };
    let from = if skip < f.len() {
        skip
    } else {
        f.len() as int
    };
    let to = if from + page_size(limit) < f.len() {
        from + page_size(limit)
    } else {
        f.len() as int
    };
    &&& collection_copies(page, f.subrange(from, to))
    &&& total == if f.len() <= u32::MAX {
        Some(f.len() as u32)
    } else {
        Some(0u32)
    }
}

/// The activated collections that match the keyword and category (each when given),
/// newest first by creation (equal dates in identifier order): one page after skipping `start`, with the number of all matches.
pub fn get_active_collections(
    state: &ContractState,
    keyword: Option<String>,
    category: Option<String>,
    start: Option<u32>,
    limit: Option<u32>,
) -> (r: CollectionsWithParamsResponse)
    ensures
        exists|srt: Seq<Collection>|
            #[trigger] stable_date_sort(srt, state.collections.view(), false)
                && active_page(
                srt,
                opt_view(keyword),
                opt_view(category),
                start,
                limit,
                r.collections@,
                r.total,
            ),
        r.start == start,
        r.limit == limit,
{
    let all = list_all(&state.collections);
    let sorted = sort_by_date(&all, false);
    proof {
        lemma_sorted_through_copies(sorted@, all@, state.collections.view(), false);
    }
    let res = filter_collection_result(&sorted, &keyword, &category, start, limit);
    let total: u32 = if res.1 <= 0xffff_ffff {
        res.1 as u32
    } else {
        0
    };
    CollectionsWithParamsResponse { collections: res.0, total: Some(total), start, limit }
}

/// A copy of the item named `item_name` of the collection of `owner`, if staged.
pub fn internal_get_item(
    state: &ContractState,
    owner: &String,
    collection_name: &String,
    collection_symbol: &String,
    item_name: &String,
) -> (r: Option<Item>)
    requires
        state.wf(),
    ensures
        ({
            let key = (owner@, spec_collection_id(collection_name@, collection_symbol@), item_name@);
            &&& state.items.has_key(key) ==> (r matches Some(it) && it.equiv(state.items.keyed(key)))
            &&& !state.items.has_key(key) ==> r is None
        }),
{
    let id = collection_id(collection_name.clone(), collection_symbol.clone());
    let r = state.items.load(owner, &id, item_name);
    proof {
        if r is Some {
            let j = choose|j: int|
                0 <= j < state.items.view().len() && item_key(#[trigger] state.items.view()[j]) == (
                    owner@,
                    id@,
                    item_name@,
                ) && r.unwrap().equiv(state.items.view()[j]);
            state.items.lemma_keyed(j, (owner@, id@, item_name@));
        }
    }
    r
}

pub fn get_item(
    state: &ContractState,
    owner: &String,
    collection_name: &String,
    collection_symbol: &String,
    item_name: &String,
) -> (r: ItemResponse)
    requires
        state.wf(),
    ensures
        ({
            let key = (owner@, spec_collection_id(collection_name@, collection_symbol@), item_name@);
            &&& state.items.has_key(key) ==> (r.item matches Some(it) && it.equiv(
                state.items.keyed(key),
            ))
            &&& !state.items.has_key(key) ==> r.item is None
        }),
{
    ItemResponse { item: internal_get_item(state, owner, collection_name, collection_symbol, item_name) }
}

/// The items of the collection of `owner` whose names come after `start_after`, in
/// ascending name order, one page (10 by default, at most 20) of them.
pub fn internal_get_items(
    state: &ContractState,
    owner: &String,
    collection_name: &String,
    collection_symbol: &String,
    start_after: Option<String>,
    limit: Option<u32>,
) -> (r: Vec<Item>)
    ensures
        ({
            let id = spec_collection_id(collection_name@, collection_symbol@);
            let f = state.items.view().filter(in_collection_after(owner@, id, opt_view(start_after)));
            let n = if page_size(limit) < f.len() {
                page_size(limit)
            } else {
                f.len() as int
            };
            copies_of(r@, f.subrange(0, n))
        }),
{
    let lim = limit_of(limit);
    let id = collection_id(collection_name.clone(), collection_symbol.clone());
    let mut r = state.items.select(owner, &id, &start_after);
    assert(opt_view(start_after) == match start_after {
        Some(a) => Some(a@),
        None => None::<Seq<char>>,
    });
    let ghost full = r@;
    r.truncate(lim);
    proof {
        let f = state.items.view().filter(in_collection_after(owner@, id@, opt_view(start_after)));
        let n = if lim < f.len() {
            lim as int
        } else {
            f.len() as int
        };
        assert forall|k: int| 0 <= k < r@.len() implies (#[trigger] r@[k]).equiv(f.subrange(0, n)[k]) by {
            assert(r@[k] == full[k]);
        }
    }
    r
}

pub fn get_items(
    state: &ContractState,
    owner: &String,
    collection_name: &String,
    collection_symbol: &String,
    start_after: Option<String>,
    limit: Option<u32>,
) -> (r: ItemsResponse)
    ensures
        ({
            let id = spec_collection_id(collection_name@, collection_symbol@);
            let f = state.items.view().filter(in_collection_after(owner@, id, opt_view(start_after)));
            let n = if page_size(limit) < f.len() {
                page_size(limit)
            } else {
                f.len() as int
            };
            copies_of(r.items@, f.subrange(0, n))
        }),
{
    ItemsResponse {
        items: internal_get_items(state, owner, collection_name, collection_symbol, start_after, limit),
    }
}

/// Every item of the collection of `owner`, in ascending name order, without paging.
pub fn internal_get_all_items(
    state: &ContractState,
    owner: &String,
    collection_name: &String,
    collection_symbol: &String,
) -> (r: Vec<Item>)
    ensures
        copies_of(
            r@,
            state.items.view().filter(
                in_collection(owner@, spec_collection_id(collection_name@, collection_symbol@)),
            ),
        ),
{
    let id = collection_id(collection_name.clone(), collection_symbol.clone());
    assert(in_collection_after(owner@, id@, None) =~= in_collection(owner@, id@));
    state.items.select(owner, &id, &None)
}

/// How many items the collection of `owner` has staged.
pub fn internal_get_items_count(
    state: &ContractState,
    owner: &String,
    collection_name: &String,
    collection_symbol: &String,
) -> (r: usize)
    ensures
        r == state.items.view().filter(
            in_collection(owner@, spec_collection_id(collection_name@, collection_symbol@)),
        ).len(),
{
    let id = collection_id(collection_name.clone(), collection_symbol.clone());
    state.items.count_in(owner, &id)
}

pub fn get_items_count(
    state: &ContractState,
    owner: &String,
    collection_name: &String,
    collection_symbol: &String,
) -> (r: ItemCountResponse)
    ensures
        r.count == state.items.view().filter(
            in_collection(owner@, spec_collection_id(collection_name@, collection_symbol@)),
        ).len(),
{
    ItemCountResponse {
        count: internal_get_items_count(state, owner, collection_name, collection_symbol),
    }
}

/// Copies of every stored collection, in store order.
fn list_all(store: &CollectionStore) -> (r: Vec<Collection>)
    ensures
        collection_copies(r@, store.view()),
{
    let mut r: Vec<Collection> = Vec::new();
    let mut i: usize = 0;
    while i < store.len()
        invariant
            i <= store.view().len(),
            r@.len() == i,
            forall|k: int| 0 <= k < i ==> (#[trigger] r@[k]).equiv(store.view()[k]),
        decreases store.view().len() - i,
    {
        r.push(store.get(i).duplicate());
        i = i + 1;
    }
    r
}

} // verus!
