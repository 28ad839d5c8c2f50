use vstd::prelude::*;
use crate::checks::{
    are_royalties_valid, are_treasuries_valid, check_if_collection_status_valid, royalties_ok,
    spec_status_valid, treasuries_ok,
};
use crate::config::{CREATE_COLLECTION_FEE, CREATE_ITEM_FEE, fee_failure, fee_payable, fee_transfers};
use crate::contract::{CallInfo, ContractState, Response, common_response, response_key, status_text};
use crate::error::ContractError;
use crate::items::in_collection;
use crate::state::{Collection, Item, COLLECTION_STATUS_ACTIVATED, COLLECTION_STATUS_DRAFT};
use crate::store::{CollectionStore, coll_id, is_keyed};
use crate::text::{collection_id, spec_collection_id, to_owned_string};

verus! {

/// The status a collection gets from an optional one: the given one, or draft.
pub open spec fn resolved_status(s: Option<u8>) -> u8 {
    match s {
        Some(x) => x,
        None => COLLECTION_STATUS_DRAFT,
    }
}

/// The status, when given, is one of the known ones.
pub open spec fn status_ok(s: Option<u8>) -> bool {
    match s {
        Some(x) => spec_status_valid(x),
        None => true,
    }
}

/// The collection that a create request `c` from `owner` at time `now` stores.
pub open spec fn created_collection(c: Collection, owner: String, now: u64) -> Collection {
    Collection {
        owner: Some(owner),
        name: c.name,
        symbol: c.symbol,
        description: c.description,
        treasuries: c.treasuries,
        attributes: c.attributes,
        prices: c.prices,
        royalties: c.royalties,
        status: Some(resolved_status(c.status)),
        date_created: Some(now),
        date_updated: Some(now),
    }
}

/// The update request supplies at least one field.
pub open spec fn any_update(u: Collection) -> bool {
    u.description is Some || u.treasuries is Some || u.prices is Some || u.attributes is Some
        || u.status is Some || u.royalties is Some
}

/// `c` with the fields that `u` supplies in place of its own, and the update time
/// bumped when `u` supplies any.
pub open spec fn merged_collection(c: Collection, u: Collection, now: u64) -> Collection {
    Collection {
        owner: c.owner,
        name: c.name,
        symbol: c.symbol,
        description: if u.description is Some {
            u.description
        } else {
            c.description
        },
        treasuries: if u.treasuries is Some {
            u.treasuries
        } else {
            c.treasuries
        },
        attributes: if u.attributes is Some {
            u.attributes
        } else {
            c.attributes
        },
        prices: if u.prices is Some {
            u.prices
        } else {
            c.prices
        },
        royalties: if u.royalties is Some {
            u.royalties
        } else {
            c.royalties
        },
        status: if u.status is Some {
            u.status
        } else {
            c.status
        },
        date_created: c.date_created,
        date_updated: if any_update(u) {
            Some(now)
        } else {
            c.date_updated
        },
    }
}

/// The item that a create request `it` from `owner` at time `now` stages.
pub open spec fn staged_item(it: Item, owner: String, now: u64) -> Item {
    Item {
        collection_owner: owner,
        collection_name: it.collection_name,
        collection_symbol: it.collection_symbol,
        name: it.name,
        description: it.description,
        links: it.links,
        traits: it.traits,
        background_color: it.background_color,
        date_created: Some(now),
        date_updated: Some(now),
    }
}

/// The call left the collections and items as they were.
pub open spec fn unchanged(a: ContractState, b: ContractState) -> bool {
    a.collections.view() == b.collections.view() && a.items.view() == b.items.view() && a.info == b.info
}

/// Whether `owner` has a collection with the given name and symbol.
pub fn collection_exists(state: &ContractState, owner: &String, name: &String, symbol: &String) -> (r: bool)
    requires
        state.wf(),
    ensures
        r == state.collections.has_key(owner@, spec_collection_id(name@, symbol@)),
{
    let id = collection_id(name.clone(), symbol.clone());
    state.collections.position_of(owner, &id).is_some()
}

/// With `error_on_exists`, fails with `CollectionAlreadyExists` when the collection
/// exists; without it, fails with `CollectionNotFound` when it does not.
pub fn check_if_collection_exists(
    state: &ContractState,
    owner: &String,
    name: &String,
    symbol: &String,
    error_on_exists: bool,
) -> (r: Result<(), ContractError>)
    requires
        state.wf(),
    ensures
        ({
            let exists = state.collections.has_key(owner@, spec_collection_id(name@, symbol@));
            &&& error_on_exists && exists ==> (r matches Err(ContractError::CollectionAlreadyExists { .. }))
            &&& !error_on_exists && !exists ==> (r matches Err(ContractError::CollectionNotFound { .. }))
            &&& (error_on_exists != exists) ==> r is Ok
        }),
{
    let exists = collection_exists(state, owner, name, symbol);
    if error_on_exists && exists {
        return Err(
            ContractError::CollectionAlreadyExists { text: to_owned_string("Collection already exists") },
        );
    }
    if !error_on_exists && !exists {
        return Err(ContractError::CollectionNotFound { text: to_owned_string("Collection not found") });
    }
    Ok(())
}

/// Whether the collection of `owner` already has an item named `name`.
pub fn item_exists(
    state: &ContractState,
    owner: &String,
    collection_name: &String,
    collection_symbol: &String,
    name: &String,
) -> (r: bool)
    ensures
        r == state.items.has_key(
            (owner@, spec_collection_id(collection_name@, collection_symbol@), name@),
        ),
{
    let id = collection_id(collection_name.clone(), collection_symbol.clone());
    state.items.position_of(owner, &id, name).is_some()
}

/// Fails with `ItemAlreadyExists` when the collection already has an item so named.
pub fn check_if_item_exists(
    state: &ContractState,
    owner: &String,
    collection_name: &String,
    collection_symbol: &String,
    name: &String,
) -> (r: Result<(), ContractError>)
    ensures
        state.items.has_key((owner@, spec_collection_id(collection_name@, collection_symbol@), name@))
            ==> (r matches Err(ContractError::ItemAlreadyExists { .. })),
        !state.items.has_key((owner@, spec_collection_id(collection_name@, collection_symbol@), name@))
            ==> r is Ok,
{
    if item_exists(state, owner, collection_name, collection_symbol, name) {
        return Err(
            ContractError::ItemAlreadyExists {
                text: to_owned_string("The item already exists in the collection"),
            },
        );
    }
    Ok(())
}

/// A collection may be removed only when it exists and is not activated.
pub fn collectionn_allowed_for_removal(
    state: &ContractState,
    owner: &String,
    name: &String,
    symbol: &String,
) -> (r: Result<bool, ContractError>)
    requires
        state.wf(),
    ensures
        ({
            let id = spec_collection_id(name@, symbol@);
            let s = state.collections.view();
            &&& !state.collections.has_key(owner@, id) ==> (r matches Err(
                ContractError::CollectionNotFound { .. },
            ))
            &&& forall|i: int|
                0 <= i < s.len() && is_keyed(#[trigger] s[i], owner@, id) ==> if s[i].status
                    == Some(COLLECTION_STATUS_ACTIVATED) {
                    r matches Err(ContractError::InvalidCollectionStatus { .. })
                } else {
                    r == Ok::<bool, ContractError>(true)
                }
        }),
{
    let id = collection_id(name.clone(), symbol.clone());
    match state.collections.position_of(owner, &id) {
        None => Err(ContractError::CollectionNotFound { text: to_owned_string("Collection not found") }),
        Some(i) => {
            proof {
                assert forall|j: int|
                    0 <= j < state.collections.view().len() && is_keyed(
                        #[trigger] state.collections.view()[j],
                        owner@,
                        id@,
                    ) implies j == i by {
                    if j != i {
                        state.collections.lemma_ids_unique(i as int, j);
                    }
                }
            }
            let c = state.collections.get(i);
            if c.status.is_none() || c.status == Some(COLLECTION_STATUS_ACTIVATED) {
                Err(
                    ContractError::InvalidCollectionStatus {
                        text: to_owned_string("An activated collection cannot be removed"),
                    },
                )
            } else {
                Ok(true)
            }
        },
    }
}

/// Creates a collection owned by the caller. Fails when a collection with the same
/// name and symbol exists (whoever owns it), when the treasuries do not share out
/// exactly 100 percent, when the royalties exceed 15 percent, when the status is
/// unknown, or when the creation fee cannot be charged. Nothing changes on failure.
pub fn create_collection(state: &mut ContractState, now: u64, info: &CallInfo, collection: Collection) -> (r: Result<
    Response,
    ContractError,
>)
    requires
        old(state).wf(),
    ensures
        final(state).wf(),
        final(state).info == old(state).info,
        r is Err ==> unchanged(*final(state), *old(state)),
        ({
            let taken = old(state).collections.has_id(coll_id(collection));
            let valid = treasuries_ok(collection.treasuries) && royalties_ok(collection.royalties)
                && status_ok(collection.status);
            let fee = fee_payable(old(state).info, info.funds@, CREATE_COLLECTION_FEE@);
            &&& taken ==> (r matches Err(ContractError::CollectionAlreadyExists { .. }))
            &&& !taken && !treasuries_ok(collection.treasuries) ==> (r matches Err(
                ContractError::InvalidAllocationsForTreasuries { .. },
            ))
            &&& !taken && treasuries_ok(collection.treasuries) && !royalties_ok(collection.royalties)
                ==> (r matches Err(ContractError::InvalidAllocationsForRoyalties { .. }))
            &&& !taken && treasuries_ok(collection.treasuries) && royalties_ok(collection.royalties)
                && !status_ok(collection.status) ==> (r matches Err(
                ContractError::InvalidCollectionStatus { .. },
            ))
            &&& !taken && valid && !fee ==> (r matches Err(e) && fee_failure(
                old(state).info,
                info.funds@,
                CREATE_COLLECTION_FEE@,
                e,
            ))
            &&& !taken && valid && fee ==> (r matches Ok(resp) && fee_transfers(
                old(state).info,
                CREATE_COLLECTION_FEE@,
                resp.messages@,
            )) && final(state).items.view() == old(state).items.view() && exists|p: int|
                0 <= p <= old(state).collections.view().len() && final(state).collections.view()
                    == old(state).collections.view().insert(
                    p,
                    created_collection(collection, info.sender, now),
                )
        }),
{
    let id = collection_id(collection.name.clone(), collection.symbol.clone());
    if state.collections.position_of_id(&id).is_some() {
        return Err(
            ContractError::CollectionAlreadyExists {
                text: to_owned_string("A collection with this name and symbol already exists"),
            },
        );
    }
    match are_treasuries_valid(&collection.treasuries) {
        Err(e) => {
            return Err(e);
        },
        Ok(_) => {},
    }
    match are_royalties_valid(&collection.royalties) {
        Err(e) => {
            return Err(e);
        },
        Ok(_) => {},
    }
    let status = match check_if_collection_status_valid(collection.status) {
        Err(e) => {
            return Err(e);
        },
        Ok(s) => s,
    };
    let msgs = match state.info.try_paying_contract_treasuries(&info.funds, CREATE_COLLECTION_FEE) {
        Err(e) => {
            return Err(e);
        },
        Ok(m) => m,
    };
    let owner = info.sender.clone();
    let key = response_key(&owner, &id);
    let new_collection = Collection {
        owner: Some(owner),
        name: collection.name,
        symbol: collection.symbol,
        description: collection.description,
        treasuries: collection.treasuries,
        attributes: collection.attributes,
        prices: collection.prices,
        royalties: collection.royalties,
        status: Some(status),
        date_created: Some(now),
        date_updated: Some(now),
    };
    let _ = state.collections.insert(new_collection);
    Ok(common_response(key, "create_collection", true, None, Some(msgs)))
}

/// Updates a collection of the caller with the fields that `collection` supplies
/// (description, treasuries, attributes, prices, royalties, status), bumping its update
/// time when it supplies any; name and symbol select the collection. Fails, changing
/// nothing, when the collection does not exist, when supplied treasuries do not share out
/// exactly 100 percent, when supplied royalties exceed 15 percent, or when a supplied
/// status is unknown. A request that supplies nothing succeeds, changes nothing and
/// answers with status "-1" and the message "Nothing updated!".
pub fn update_collection(state: &mut ContractState, now: u64, info: &CallInfo, collection: Collection) -> (r: Result<
    Response,
    ContractError,
>)
    requires
        old(state).wf(),
    ensures
        final(state).wf(),
        final(state).info == old(state).info,
        final(state).items.view() == old(state).items.view(),
        r is Err ==> unchanged(*final(state), *old(state)),
        ({
            let id = coll_id(collection);
            let found = old(state).collections.has_key(info.sender@, id);
            let valid = treasuries_ok(collection.treasuries) && royalties_ok(collection.royalties)
                && status_ok(collection.status);
            let s = old(state).collections.view();
            &&& !found ==> (r matches Err(ContractError::CollectionNotFound { .. }))
            &&& found && !treasuries_ok(collection.treasuries) ==> (r matches Err(
                ContractError::InvalidAllocationsForTreasuries { .. },
            ))
            &&& found && treasuries_ok(collection.treasuries) && !royalties_ok(collection.royalties)
                ==> (r matches Err(ContractError::InvalidAllocationsForRoyalties { .. }))
            &&& found && treasuries_ok(collection.treasuries) && royalties_ok(collection.royalties)
                && !status_ok(collection.status) ==> (r matches Err(
                ContractError::InvalidCollectionStatus { .. },
            ))
            &&& found && valid ==> (r matches Ok(resp) && {
                &&& resp.messages@.len() == 0
                &&& resp.attributes@[1].value@ == "update_collection"@
                &&& any_update(collection) ==> resp.attributes@.len() == 3
                    && resp.attributes@[2].value@ == status_text(true)
                &&& !any_update(collection) ==> resp.attributes@.len() == 4
                    && resp.attributes@[2].value@ == status_text(false)
                    && resp.attributes@[3].key@ == "message"@
                    && resp.attributes@[3].value@ == "Nothing updated!"@
            }) && exists|i: int|
                0 <= i < s.len() && is_keyed(s[i], info.sender@, id) && if any_update(collection) {
                    &&& final(state).collections.view() == s.update(
                        i,
                        final(state).collections.view()[i],
                    )
                    &&& final(state).collections.view()[i].equiv(
                        merged_collection(s[i], collection, now),
                    )
                } else {
                    final(state).collections.view() == s
                }
        }),
{
    let owner = info.sender.clone();
    let id = collection_id(collection.name.clone(), collection.symbol.clone());
    let key = response_key(&owner, &id);
    let i = match state.collections.position_of(&owner, &id) {
        None => {
            return Err(
                ContractError::CollectionNotFound { text: to_owned_string("Collection not found") },
            );
        },
        Some(i) => i,
    };
    match are_treasuries_valid(&collection.treasuries) {
        Err(e) => {
            return Err(e);
        },
        Ok(_) => {},
    }
    match are_royalties_valid(&collection.royalties) {
        Err(e) => {
            return Err(e);
        },
        Ok(_) => {},
    }
    match check_if_collection_status_valid(collection.status) {
        Err(e) => {
            return Err(e);
        },
        Ok(_) => {},
    }
    let mut updated = state.collections.get(i).duplicate();
    let mut to_update = false;
    if collection.description.is_some() {
        updated.description = collection.description;
        to_update = true;
    }
    if collection.treasuries.is_some() {
        updated.treasuries = collection.treasuries;
        to_update = true;
    }
    if collection.prices.is_some() {
        updated.prices = collection.prices;
        to_update = true;
    }
    if collection.attributes.is_some() {
        updated.attributes = collection.attributes;
        to_update = true;
    }
    if collection.royalties.is_some() {
        updated.royalties = collection.royalties;
        to_update = true;
    }
    if collection.status.is_some() {
        updated.status = collection.status;
        to_update = true;
    }
    if to_update {
        updated.date_updated = Some(now);
        state.collections.replace(i, updated);
        Ok(common_response(key, "update_collection", true, None, None))
    } else {
        Ok(
            common_response(
                key,
                "update_collection",
                false,
                Some(to_owned_string("Nothing updated!")),
                None,
            ),
        )
    }
}

/// Stages an item in a collection of the caller; the item records the caller as its
/// collection's owner and `now` as its creation and update time. Fails, changing
/// nothing, when the collection does not exist, when it already has an item of that
/// name, or when the item fee cannot be charged.
pub fn create_item(state: &mut ContractState, now: u64, info: &CallInfo, item: Item) -> (r: Result<
    Response,
    ContractError,
>)
    requires
        old(state).wf(),
    ensures
        final(state).wf(),
        final(state).info == old(state).info,
        final(state).collections.view() == old(state).collections.view(),
        r is Err ==> unchanged(*final(state), *old(state)),
        ({
            let id = spec_collection_id(item.collection_name@, item.collection_symbol@);
            let found = old(state).collections.has_key(info.sender@, id);
            let taken = old(state).items.has_key((info.sender@, id, item.name@));
            let fee = fee_payable(old(state).info, info.funds@, CREATE_ITEM_FEE@);
            &&& !found ==> (r matches Err(ContractError::CollectionNotFound { .. }))
            &&& found && taken ==> (r matches Err(ContractError::ItemAlreadyExists { .. }))
            &&& found && !taken && !fee ==> (r matches Err(e) && fee_failure(
                old(state).info,
                info.funds@,
                CREATE_ITEM_FEE@,
                e,
            ))
            &&& found && !taken && fee ==> (r matches Ok(resp) && fee_transfers(
                old(state).info,
                CREATE_ITEM_FEE@,
                resp.messages@,
            )) && exists|p: int|
                0 <= p <= old(state).items.view().len() && final(state).items.view()
                    == old(state).items.view().insert(p, staged_item(item, info.sender, now))
        }),
{
    let owner = info.sender.clone();
    match check_if_collection_exists(state, &owner, &item.collection_name, &item.collection_symbol, false) {
        Err(e) => {
            return Err(e);
        },
        Ok(_) => {},
    }
    match check_if_item_exists(state, &owner, &item.collection_name, &item.collection_symbol, &item.name) {
        Err(e) => {
            return Err(e);
        },
        Ok(_) => {},
    }
    let msgs = match state.info.try_paying_contract_treasuries(&info.funds, CREATE_ITEM_FEE) {
        Err(e) => {
            return Err(e);
        },
        Ok(m) => m,
    };
    let id = collection_id(item.collection_name.clone(), item.collection_symbol.clone());
    let key = response_key(&owner, &id);
    let staged = Item {
        collection_owner: owner,
        collection_name: item.collection_name,
        collection_symbol: item.collection_symbol,
        name: item.name,
        description: item.description,
        links: item.links,
        traits: item.traits,
        background_color: item.background_color,
        date_created: Some(now),
        date_updated: Some(now),
    };
    let _ = state.items.insert(staged);
    Ok(common_response(key, "create_item", true, None, Some(msgs)))
}

/// Removes a collection of the caller together with every item staged in it (collected
/// first, then removed one by one). Fails, changing nothing, when the collection does
/// not exist or is activated.
pub fn remove_collection(state: &mut ContractState, info: &CallInfo, name: String, symbol: String) -> (r: Result<
    Response,
    ContractError,
>)
    requires
        old(state).wf(),
    ensures
        final(state).wf(),
        final(state).info == old(state).info,
        r is Err ==> unchanged(*final(state), *old(state)),
        ({
            let id = spec_collection_id(name@, symbol@);
            let s = old(state).collections.view();
            &&& !old(state).collections.has_key(info.sender@, id) ==> (r matches Err(
                ContractError::CollectionNotFound { .. },
            ))
            &&& forall|i: int|
                0 <= i < s.len() && is_keyed(#[trigger] s[i], info.sender@, id) ==> if s[i].status
                    == Some(COLLECTION_STATUS_ACTIVATED) {
                    r matches Err(ContractError::InvalidCollectionStatus { .. })
                } else {
                    &&& r is Ok
                    &&& final(state).collections.view() == s.remove(i)
                    &&& forall|x: Item|
                        #[trigger] final(state).items.view().contains(x) <==> (old(state).items.view().contains(x)
                            && !in_collection(info.sender@, id)(x))
                }
        }),
{
    let owner = info.sender.clone();
    match collectionn_allowed_for_removal(state, &owner, &name, &symbol) {
        Err(e) => {
            return Err(e);
        },
        Ok(_) => {},
    }
    let id = collection_id(name, symbol);
    let key = response_key(&owner, &id);
    match state.collections.position_of(&owner, &id) {
        Some(i) => {
            proof {
                assert forall|j: int|
                    0 <= j < state.collections.view().len() && is_keyed(
                        #[trigger] state.collections.view()[j],
                        owner@,
                        id@,
                    ) implies j == i by {
                    if j != i {
                        state.collections.lemma_ids_unique(i as int, j);
                    }
                }
            }
            let _ = state.collections.remove_at(i);
        },
        None => {},
    }
    remove_all_items(state, &owner, &id);
    Ok(common_response(key, "remove_collection", true, None, None))
}

/// Removes every item staged in the collection `id` of `owner`.
pub fn remove_all_items(state: &mut ContractState, owner: &String, id: &String)
    requires
        old(state).wf(),
    ensures
        final(state).wf(),
        final(state).info == old(state).info,
        final(state).collections.view() == old(state).collections.view(),
        forall|x: Item|
            #[trigger] final(state).items.view().contains(x) <==> (old(state).items.view().contains(x)
                && !in_collection(owner@, id@)(x)),
{
    state.items.remove_all_in(owner, id);
}

/// Once a collection is created, its name and symbol are taken for every owner: the
/// store then holds a collection with the identifier of any request with the same name
/// and symbol, so that `create_collection` rejects such a request.
pub proof fn lemma_created_id_taken(
    before: CollectionStore,
    after: CollectionStore,
    c: Collection,
    owner: String,
    now: u64,
    again: Collection,
)
    requires
        exists|p: int|
            0 <= p <= before.view().len() && after.view() == before.view().insert(
                p,
                created_collection(c, owner, now),
            ),
        again.name@ == c.name@,
        again.symbol@ == c.symbol@,
    ensures
        after.has_id(coll_id(again)),
{
    let p = choose|p: int|
        0 <= p <= before.view().len() && after.view() == before.view().insert(
            p,
            created_collection(c, owner, now),
        );
    assert(after.view()[p] == created_collection(c, owner, now));
    assert(coll_id(after.view()[p]) == coll_id(again));
}

/// After a collection is removed with its items, it is gone and its item count is zero.
pub proof fn lemma_cascade_delete(
    colls_before: CollectionStore,
    colls_after: CollectionStore,
    items_before: Seq<Item>,
    items_after: Seq<Item>,
    i: int,
    owner: Seq<char>,
    id: Seq<char>,
)
    requires
        colls_before.wf(),
        0 <= i < colls_before.view().len(),
        is_keyed(colls_before.view()[i], owner, id),
        colls_after.view() == colls_before.view().remove(i),
        forall|x: Item|
            #[trigger] items_after.contains(x) <==> (items_before.contains(x) && !in_collection(
                owner,
                id,
            )(x)),
    ensures
        !colls_after.has_key(owner, id),
        items_after.filter(in_collection(owner, id)).len() == 0,
{
    assert forall|j: int| 0 <= j < colls_after.view().len() implies !is_keyed(
        #[trigger] colls_after.view()[j],
        owner,
        id,
    ) by {
        let k = if j < i {
            j
        } else {
            j + 1
        };
        assert(colls_after.view()[j] == colls_before.view()[k]);
        colls_before.lemma_ids_unique(i, k);
    }
    assert forall|k: int| 0 <= k < items_after.len() implies !in_collection(owner, id)(
        #[trigger] items_after[k],
    ) by {
        assert(items_after.contains(items_after[k]));
    }
    items_after.lemma_all_neg_filter_empty(in_collection(owner, id));
}

} // verus!
