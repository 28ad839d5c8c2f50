use vstd::prelude::*;
use crate::checks::{check_if_fund_sufficient, lemma_shares_total};
use crate::config::{
    ContractInfo, NFT_MINTING_FEE, SIMPLE_NFT_MINTING_FEE, fee_count, fee_payable, fee_transfers,
    funds_cover,
};
use crate::contract::{Attr, CallInfo, ContractState, Response};
use crate::error::ContractError;
use crate::items::{in_collection, in_collection_after, item_key};
use crate::payment::{BankTransfer, pay_by_percentage, split_of};
use crate::rng::{pick_random_index, random_index};
use crate::state::{
    Coin, Collection, Item, Royalty, COLLECTION_STATUS_ACTIVATED, LINK_TYPE_ANIMATION_URL,
    LINK_TYPE_EXTERNAL_LINK, LINK_TYPE_IMAGE_URL, LINK_TYPE_VIDEO_URL, PRICE_TYPE_STANDARD, opt_seq,
    clone_opt_string, clone_opt_vec,
};
use crate::query::opt_view;
use crate::store::stored_collection_ok;
use crate::text::{collection_id, spec_collection_id, to_owned_string};
use crate::utils::{hex_digits, nft_token_id, token_key_hash};

verus! {

/// The metadata that a minted token carries, taken from its item.
#[derive(Debug, PartialEq)]
pub struct NftMetadata {
    pub description: Option<String>,
    pub name: Option<String>,
    pub image: Option<String>,
    pub youtube_url: Option<String>,
    pub animation_url: Option<String>,
    pub external_url: Option<String>,
}

/// The summary of its collection that a minted token carries among its traits.
#[derive(Debug, PartialEq)]
pub struct SimpleCollectionInfo {
    pub owner: String,
    pub collection_name: String,
    pub collection_symbol: String,
    pub category: Option<String>,
    pub royalties: Option<Vec<Royalty>>,
}

/// A mint that has passed every check: the token to create, the item it consumes, and
/// the transfers that pay for it. The host performs the delegated mint and reports the
/// outcome to `complete_mint`.
pub struct MintPlan {
    pub token_id: String,
    pub owner: String,
    pub token_uri: Option<String>,
    pub item: Item,
    pub metadata: NftMetadata,
    pub collection_info: SimpleCollectionInfo,
    pub transfers: Vec<BankTransfer>,
    pub method: String,
}

/// The token id: the one given, or "Nft" and the hash of the item's identifying strings.
pub open spec fn spec_token_id(given: Option<String>, it: Item) -> Seq<char> {
    match given {
        Some(t) => t@,
        None => "Nft"@ + hex_digits(
            token_key_hash(
                it.name@,
                it.collection_owner@,
                it.collection_name@,
                it.collection_symbol@,
            ) as nat,
            16,
        ),
    }
}

/// What a mint pays: the price split across the collection's treasuries, followed by
/// the contract's minting fee when it can be charged.
pub open spec fn mint_transfers(
    t: Seq<BankTransfer>,
    c: Collection,
    price: Coin,
    info: ContractInfo,
    funds: Seq<Coin>,
) -> bool {
    let k = c.spec_payments().len() as int;
    &&& k <= t.len()
    &&& split_of(c.spec_payments(), price, t.subrange(0, k))
    &&& fee_payable(info, funds, NFT_MINTING_FEE@) ==> fee_transfers(
        info,
        NFT_MINTING_FEE@,
        t.subrange(k, t.len() as int),
    )
    &&& !fee_payable(info, funds, NFT_MINTING_FEE@) ==> t.len() == k
}

/// The plan mints `it` of collection `c` for `info.sender`, paying `price`.
pub open spec fn plan_for(
    plan: MintPlan,
    it: Item,
    c: Collection,
    price: Coin,
    state: ContractState,
    info: CallInfo,
    token_uri: Option<String>,
    token_id: Option<String>,
) -> bool {
    &&& plan.item.equiv(it)
    &&& plan.owner == info.sender
    &&& plan.token_uri == token_uri
    &&& plan.token_id@ == spec_token_id(token_id, it)
    &&& mint_transfers(plan.transfers@, c, price, state.info, info.funds@)
    &&& plan.metadata.description == it.description
    &&& plan.metadata.name == Some(it.name)
    &&& opt_view(plan.metadata.image) == it.spec_link_value(LINK_TYPE_IMAGE_URL)
    &&& opt_view(plan.metadata.youtube_url) == it.spec_link_value(LINK_TYPE_VIDEO_URL)
    &&& opt_view(plan.metadata.animation_url) == it.spec_link_value(LINK_TYPE_ANIMATION_URL)
    &&& opt_view(plan.metadata.external_url) == it.spec_link_value(LINK_TYPE_EXTERNAL_LINK)
    &&& opt_view(plan.collection_info.category) == c.spec_category()
    &&& plan.collection_info.owner == it.collection_owner
    &&& plan.collection_info.collection_name == it.collection_name
    &&& plan.collection_info.collection_symbol == it.collection_symbol
    &&& opt_seq(plan.collection_info.royalties) == opt_seq(c.royalties)
}

/// The price tier that a mint asks for: the given one, or the standard tier.
pub open spec fn tier_of(price_type: Option<u8>) -> u8 {
    match price_type {
        Some(t) => t,
        None => PRICE_TYPE_STANDARD,
    }
}

/// The price of the requested tier split across the collection's treasuries; `None`
/// when the collection has no price of that tier.
pub fn pay_collection_treasuries(collection: &Collection, price_type: u8) -> (r: Option<Vec<BankTransfer>>)
    requires
        stored_collection_ok(*collection),
    ensures
        match collection.spec_price_by_type(price_type) {
            None => r is None,
            Some(p) => r matches Some(t) && split_of(collection.spec_payments(), p, t@),
        },
{
    let payments = collection.treasuries_to_payments();
    proof {
        lemma_shares_total(*collection, payments@);
    }
    match collection.price_by_type(price_type) {
        Some(price) => Some(pay_by_percentage(&payments, &price)),
        None => None,
    }
}

/// Everything a mint pays: the price split across the collection's treasuries and, when
/// it can be charged, the contract's minting fee; `None` when that comes to nothing.
pub fn pay_all_treasuries(
    info: &ContractInfo,
    funds: &Vec<Coin>,
    collection: &Collection,
    price_type: u8,
) -> (r: Option<Vec<BankTransfer>>)
    requires
        stored_collection_ok(*collection),
    ensures
        collection.spec_price_by_type(price_type) matches Some(p) ==> (r matches Some(t)
            && mint_transfers(t@, *collection, p, *info, funds@)),
        collection.spec_price_by_type(price_type) is None ==> if fee_payable(
            *info,
            funds@,
            NFT_MINTING_FEE@,
        ) && fee_count(*info, NFT_MINTING_FEE@) > 0 {
            r matches Some(t) && fee_transfers(*info, NFT_MINTING_FEE@, t@)
        } else {
            r is None
        },
{
    let mut all: Vec<BankTransfer> = match pay_collection_treasuries(collection, price_type) {
        Some(t) => t,
        None => Vec::new(),
    };
    let ghost split = all@;
    match info.try_paying_contract_treasuries(funds, NFT_MINTING_FEE) {
        Ok(mut fee) => {
            let ghost f = fee@;
            all.append(&mut fee);
            assert(all@.subrange(0, split.len() as int) =~= split);
            assert(all@.subrange(split.len() as int, all@.len() as int) =~= f);
            assert(split.len() == 0 ==> all@ =~= f);
        },
        Err(_) => {
            assert(all@.subrange(0, split.len() as int) =~= split);
        },
    }
    if all.len() > 0 {
        Some(all)
    } else {
        None
    }
}

/// Builds the plan that mints `item` of `collection` for the caller with the given
/// transfers: the token id (given, or derived from the item), the metadata taken from the
/// item, and the collection summary.
pub fn mint_nft(
    info: &CallInfo,
    item: Item,
    collection: &Collection,
    token_uri: Option<String>,
    method: String,
    token_id: Option<String>,
    transfers: Vec<BankTransfer>,
) -> (r: MintPlan)
    ensures
        r.item == item,
        r.owner == info.sender,
        r.token_uri == token_uri,
        r.token_id@ == spec_token_id(token_id, item),
        r.transfers@ == transfers@,
        r.method == method,
        r.metadata.description == item.description,
        r.metadata.name == Some(item.name),
        opt_view(r.metadata.image) == item.spec_link_value(LINK_TYPE_IMAGE_URL),
        opt_view(r.metadata.youtube_url) == item.spec_link_value(LINK_TYPE_VIDEO_URL),
        opt_view(r.metadata.animation_url) == item.spec_link_value(LINK_TYPE_ANIMATION_URL),
        opt_view(r.metadata.external_url) == item.spec_link_value(LINK_TYPE_EXTERNAL_LINK),
        r.collection_info.owner == item.collection_owner,
        r.collection_info.collection_name == item.collection_name,
        r.collection_info.collection_symbol == item.collection_symbol,
        opt_view(r.collection_info.category) == collection.spec_category(),
        opt_seq(r.collection_info.royalties) == opt_seq(collection.royalties),
{
    let token_id = match token_id {
        Some(t) => t,
        None => nft_token_id(
            item.name.as_str(),
            item.collection_owner.as_str(),
            item.collection_name.as_str(),
            item.collection_symbol.as_str(),
        ),
    };
    let metadata = NftMetadata {
        description: clone_opt_string(&item.description),
        name: Some(item.name.clone()),
        image: item.image_link(),
        youtube_url: item.video_link(),
        animation_url: item.animation_link(),
        external_url: item.external_link(),
    };
    let collection_info = SimpleCollectionInfo {
        owner: item.collection_owner.clone(),
        collection_name: item.collection_name.clone(),
        collection_symbol: item.collection_symbol.clone(),
        category: collection.category(),
        royalties: clone_opt_vec(&collection.royalties),
    };
    MintPlan {
        token_id,
        owner: info.sender.clone(),
        token_uri,
        item,
        metadata,
        collection_info,
        transfers,
        method,
    }
}

/// Plans a random mint from the collection `(owner, collection_name, collection_symbol)`:
/// the collection must exist and be activated, and have staged items; the seed picks one
/// of them (in ascending name order); the requested price tier (standard by default) must
/// exist and the first attached fund must cover it. Nothing changes: the item is consumed
/// by `complete_mint` once the delegated mint has succeeded.
pub fn mint_item(
    state: &ContractState,
    info: &CallInfo,
    seed: u64,
    owner: String,
    collection_name: String,
    collection_symbol: String,
    price_type: Option<u8>,
    token_uri: Option<String>,
    token_id: Option<String>,
) -> (r: Result<MintPlan, ContractError>)
    requires
        state.wf(),
    ensures
        ({
            let id = spec_collection_id(collection_name@, collection_symbol@);
            let found = state.collections.has_key(owner@, id);
            let c = state.collections.keyed(owner@, id);
            let active = c.status == Some(COLLECTION_STATUS_ACTIVATED);
            let cands = state.items.view().filter(in_collection(owner@, id));
            let price = c.spec_price_by_type(tier_of(price_type));
            &&& !found ==> (r matches Err(ContractError::CollectionNotFound { .. }))
            &&& found && !active ==> (r matches Err(
                ContractError::NftStatusIsNotReadyForMinting { .. },
            ))
            &&& found && active && cands.len() == 0 ==> (r matches Err(
                ContractError::FailedToFindNft { .. },
            ))
            &&& found && active && cands.len() > 0 && price is None ==> (r matches Err(
                ContractError::PriceTypeNotFound { .. },
            ))
            &&& found && active && cands.len() > 0 && price is Some ==> if !funds_cover(
                info.funds@,
                price.unwrap(),
            ) {
                r matches Err(ContractError::InsufficientFund { .. })
            } else {
                r matches Ok(plan) && plan_for(
                    plan,
                    cands[random_index(seed, cands.len())],
                    c,
                    price.unwrap(),
                    *state,
                    *info,
                    token_uri,
                    token_id,
                ) && plan.method@ == "random-mint"@
            }
        }),
{
    let id = collection_id(collection_name, collection_symbol);
    let i = match state.collections.position_of(&owner, &id) {
        None => {
            return Err(
                ContractError::CollectionNotFound { text: to_owned_string("Collection not found") },
            );
        },
        Some(i) => i,
    };
    proof {
        state.collections.lemma_keyed(i as int, owner@, id@);
    }
    let collection = state.collections.get(i);
    if collection.status != Some(COLLECTION_STATUS_ACTIVATED) {
        return Err(
            ContractError::NftStatusIsNotReadyForMinting {
                text: to_owned_string("Collection is not ready for minting"),
            },
        );
    }
    let items = state.items.select(&owner, &id, &None);
    assert(in_collection_after(owner@, id@, None) =~= in_collection(owner@, id@));
    if items.len() == 0 {
        return Err(
            ContractError::FailedToFindNft { text: to_owned_string("No items available for minting") },
        );
    }
    let index = pick_random_index(seed, items.len());
    let tier = match price_type {
        Some(t) => t,
        None => PRICE_TYPE_STANDARD,
    };
    let price = match collection.price_by_type(tier) {
        None => {
            return Err(
                ContractError::PriceTypeNotFound {
                    text: to_owned_string("The collection has no price of the requested type"),
                },
            );
        },
        Some(p) => p,
    };
    match check_if_fund_sufficient(&info.funds, &price) {
        Err(e) => {
            return Err(e);
        },
        Ok(_) => {},
    }
    let transfers = match pay_all_treasuries(&state.info, &info.funds, collection, tier) {
        None => {
            return Err(
                ContractError::FailedToMakePayment {
                    text: to_owned_string("Failed to make payment when minting NFT"),
                },
            );
        },
        Some(t) => t,
    };
    let mut items = items;
    let chosen = items.swap_remove(index);
    proof {
        assert(chosen.equiv(state.items.view().filter(in_collection(owner@, id@))[index as int]));
    }
    let plan = mint_nft(
        info,
        chosen,
        collection,
        token_uri,
        to_owned_string("random-mint"),
        token_id,
        transfers,
    );
    Ok(plan)
}

/// Plans the mint of the item named `item_name` from the collection `(owner,
/// collection_name, collection_symbol)`: the collection must exist, be activated and
/// allow minting by name, the item must be staged, the requested price tier (standard
/// by default) must exist and the first attached fund must cover it. Nothing changes:
/// the item is consumed by `complete_mint` once the delegated mint has succeeded.
pub fn mint_item_by_name(
    state: &ContractState,
    info: &CallInfo,
    item_name: String,
    owner: String,
    collection_name: String,
    collection_symbol: String,
    price_type: Option<u8>,
    token_uri: Option<String>,
    token_id: Option<String>,
) -> (r: Result<MintPlan, ContractError>)
    requires
        state.wf(),
    ensures
        ({
            let id = spec_collection_id(collection_name@, collection_symbol@);
            let key = (owner@, id, item_name@);
            let found = state.collections.has_key(owner@, id);
            let c = state.collections.keyed(owner@, id);
            let active = c.status == Some(COLLECTION_STATUS_ACTIVATED);
            let by_name = c.spec_mint_by_name_allowed();
            let staged = state.items.has_key(key);
            let price = c.spec_price_by_type(tier_of(price_type));
            &&& !found ==> (r matches Err(ContractError::CollectionNotFound { .. }))
            &&& found && !active ==> (r matches Err(
                ContractError::NftStatusIsNotReadyForMinting { .. },
            ))
            &&& found && active && !by_name ==> (r matches Err(
                ContractError::MintByNameIsNotAllowed { .. },
            ))
            &&& found && active && by_name && !staged ==> (r matches Err(
                ContractError::FailedToFindNft { .. },
            ))
            &&& found && active && by_name && staged && price is None ==> (r matches Err(
                ContractError::PriceTypeNotFound { .. },
            ))
            &&& found && active && by_name && staged && price is Some ==> if !funds_cover(
                info.funds@,
                price.unwrap(),
            ) {
                r matches Err(ContractError::InsufficientFund { .. })
            } else {
                r matches Ok(plan) && plan_for(
                    plan,
                    state.items.keyed(key),
                    c,
                    price.unwrap(),
                    *state,
                    *info,
                    token_uri,
                    token_id,
                ) && plan.method@ == "mint-by-name"@
            }
        }),
{
    let id = collection_id(collection_name, collection_symbol);
    let i = match state.collections.position_of(&owner, &id) {
        None => {
            return Err(
                ContractError::CollectionNotFound { text: to_owned_string("Collection not found") },
            );
        },
        Some(i) => i,
    };
    proof {
        state.collections.lemma_keyed(i as int, owner@, id@);
    }
    let collection = state.collections.get(i);
    if collection.status != Some(COLLECTION_STATUS_ACTIVATED) {
        return Err(
            ContractError::NftStatusIsNotReadyForMinting {
                text: to_owned_string("Collection is not ready for minting"),
            },
        );
    }
    if !collection.is_mint_by_name_allowed() {
        return Err(
            ContractError::MintByNameIsNotAllowed {
                text: to_owned_string("Collection does not allow minting by name"),
            },
        );
    }
    let item = match state.items.load(&owner, &id, &item_name) {
        None => {
            return Err(ContractError::FailedToFindNft { text: to_owned_string("Item not found") });
        },
        Some(it) => it,
    };
    proof {
        let j = choose|j: int|
            0 <= j < state.items.view().len() && item_key(#[trigger] state.items.view()[j]) == (
                owner@,
                id@,
                item_name@,
            ) && item.equiv(state.items.view()[j]);
        state.items.lemma_keyed(j, (owner@, id@, item_name@));
    }
    let tier = match price_type {
        Some(t) => t,
        None => PRICE_TYPE_STANDARD,
    };
    let price = match collection.price_by_type(tier) {
        None => {
            return Err(
                ContractError::PriceTypeNotFound {
                    text: to_owned_string("The collection has no price of the requested type"),
                },
            );
        },
        Some(p) => p,
    };
    match check_if_fund_sufficient(&info.funds, &price) {
        Err(e) => {
            return Err(e);
        },
        Ok(_) => {},
    }
    let transfers = match pay_all_treasuries(&state.info, &info.funds, collection, tier) {
        None => {
            return Err(
                ContractError::FailedToMakePayment {
                    text: to_owned_string("Failed to make payment when minting NFT"),
                },
            );
        },
        Some(t) => t,
    };
    Ok(
        mint_nft(
            info,
            item,
            collection,
            token_uri,
            to_owned_string("mint-by-name"),
            token_id,
            transfers,
        ),
    )
}

/// The contract's simple-mint fee, when it can be charged; `None` otherwise.
pub fn pay_simple_mint_fee(info: &ContractInfo, funds: &Vec<Coin>) -> (r: Option<Vec<BankTransfer>>)
    ensures
        fee_payable(*info, funds@, SIMPLE_NFT_MINTING_FEE@) ==> (r matches Some(t) && fee_transfers(
            *info,
            SIMPLE_NFT_MINTING_FEE@,
            t@,
        )),
        !fee_payable(*info, funds@, SIMPLE_NFT_MINTING_FEE@) ==> r is None,
{
    match info.try_paying_contract_treasuries(funds, SIMPLE_NFT_MINTING_FEE) {
        Ok(t) => Some(t),
        Err(_) => None,
    }
}

/// Plans the mint of an item that is not staged in any collection, paid by the
/// contract's simple-mint fee; fails with `FailedToMakePayment` when that fee cannot be
/// charged.
pub fn simple_mint(
    state: &ContractState,
    info: &CallInfo,
    item: Item,
    token_uri: Option<String>,
    token_id: Option<String>,
) -> (r: Result<MintPlan, ContractError>)
    ensures
        !fee_payable(state.info, info.funds@, SIMPLE_NFT_MINTING_FEE@) ==> (r matches Err(
            ContractError::FailedToMakePayment { .. },
        )),
        fee_payable(state.info, info.funds@, SIMPLE_NFT_MINTING_FEE@) ==> (r matches Ok(plan) && {
            &&& plan.item == item
            &&& plan.owner == info.sender
            &&& plan.token_uri == token_uri
            &&& plan.token_id@ == spec_token_id(token_id, item)
            &&& fee_transfers(state.info, SIMPLE_NFT_MINTING_FEE@, plan.transfers@)
            &&& plan.method@ == "simple-mint-nft"@
            &&& plan.collection_info.category is None
            &&& plan.collection_info.royalties is None
        }),
{
    let transfers = match pay_simple_mint_fee(&state.info, &info.funds) {
        None => {
            return Err(
                ContractError::FailedToMakePayment {
                    text: to_owned_string("Failed to make payment when minting NFT"),
                },
            );
        },
        Some(t) => t,
    };
    let token_id = match token_id {
        Some(t) => t,
        None => nft_token_id(
            item.name.as_str(),
            item.collection_owner.as_str(),
            item.collection_name.as_str(),
            item.collection_symbol.as_str(),
        ),
    };
    let metadata = NftMetadata {
        description: clone_opt_string(&item.description),
        name: Some(item.name.clone()),
        image: item.image_link(),
        youtube_url: item.video_link(),
        animation_url: item.animation_link(),
        external_url: item.external_link(),
    };
    let collection_info = SimpleCollectionInfo {
        owner: item.collection_owner.clone(),
        collection_name: item.collection_name.clone(),
        collection_symbol: item.collection_symbol.clone(),
        category: None,
        royalties: None,
    };
    Ok(
        MintPlan {
            token_id,
            owner: info.sender.clone(),
            token_uri,
            item,
            metadata,
            collection_info,
            transfers,
            method: to_owned_string("simple-mint-nft"),
        },
    )
}

/// What finishing a mint does to the staged items: a successful delegated mint removes
/// the item with the minted key and keeps every other; a failed one keeps them all.
pub open spec fn mint_effect(
    before: Seq<Item>,
    after: Seq<Item>,
    key: (Seq<char>, Seq<char>, Seq<char>),
    minted: bool,
) -> bool {
    if minted {
        forall|x: Item| #[trigger] after.contains(x) <==> (before.contains(x) && item_key(x) != key)
    } else {
        after == before
    }
}

/// Finishes a planned mint once the host has run the delegated mint: on success the
/// minted item leaves the store and the response carries the plan's transfers; on
/// failure nothing changes and the mint's error is reported.
pub fn complete_mint(state: &mut ContractState, plan: MintPlan, mint_result: Result<(), String>) -> (r: Result<
    Response,
    ContractError,
>)
    requires
        old(state).wf(),
    ensures
        final(state).wf(),
        final(state).info == old(state).info,
        final(state).collections.view() == old(state).collections.view(),
        mint_effect(
            old(state).items.view(),
            final(state).items.view(),
            item_key(plan.item),
            mint_result is Ok,
        ),
        mint_result is Ok ==> (r matches Ok(resp) && resp.messages@ == plan.transfers@
            && resp.attributes@.len() == 1 && resp.attributes@[0].key@ == "method"@
            && resp.attributes@[0].value@ == plan.method@),
        mint_result matches Err(e) ==> r == Err::<Response, ContractError>(
            ContractError::CustomErrorMesg { message: e },
        ),
{
    match mint_result {
        Err(e) => Err(ContractError::CustomErrorMesg { message: e }),
        Ok(_) => {
            let ghost before = state.items.view();
            let it = &plan.item;
            internal_remove_item(state, &it.collection_owner, &it.collection_name, &it.collection_symbol, &it.name);
            proof {
                assert forall|x: Item|
                    #[trigger] state.items.view().contains(x) <==> (before.contains(x) && item_key(x)
                        != item_key(plan.item)) by {}
            }
            let mut attributes: Vec<Attr> = Vec::new();
            attributes.push(Attr { key: to_owned_string("method"), value: plan.method });
            Ok(Response { messages: plan.transfers, attributes })
        },
    }
}

/// Removes the item named `name` of the collection `(owner, collection_name,
/// collection_symbol)`; tells whether it was staged.
pub fn internal_remove_item(
    state: &mut ContractState,
    owner: &String,
    collection_name: &String,
    collection_symbol: &String,
    name: &String,
) -> (r: bool)
    requires
        old(state).wf(),
    ensures
        final(state).wf(),
        final(state).info == old(state).info,
        final(state).collections.view() == old(state).collections.view(),
        ({
            let key = (owner@, spec_collection_id(collection_name@, collection_symbol@), name@);
            &&& r == old(state).items.has_key(key)
            &&& forall|x: Item|
                #[trigger] final(state).items.view().contains(x) <==> (old(state).items.view().contains(x)
                    && item_key(x) != key)
        }),
{
    let ghost before = state.items.view();
    let id = collection_id(collection_name.clone(), collection_symbol.clone());
    let removed = state.items.remove_key(owner, &id, name).is_some();
    proof {
        assert forall|x: Item|
            #[trigger] state.items.view().contains(x) <==> (before.contains(x) && item_key(x) != (
                owner@,
                id@,
                name@,
            )) by {}
    }
    removed
}

/// A staged item survives a failed delegated mint and is gone after a successful one.
pub proof fn lemma_mint_atomicity(
    before: Seq<Item>,
    after: Seq<Item>,
    key: (Seq<char>, Seq<char>, Seq<char>),
    minted: bool,
)
    requires
        mint_effect(before, after, key, minted),
        exists|i: int| 0 <= i < before.len() && item_key(#[trigger] before[i]) == key,
    ensures
        (exists|i: int| 0 <= i < after.len() && item_key(#[trigger] after[i]) == key) <==> !minted,
{
    let i = choose|i: int| 0 <= i < before.len() && item_key(#[trigger] before[i]) == key;
    if minted {
        if exists|j: int| 0 <= j < after.len() && item_key(#[trigger] after[j]) == key {
            let j = choose|j: int| 0 <= j < after.len() && item_key(#[trigger] after[j]) == key;
            assert(after.contains(after[j]));
        }
    } else {
        assert(after[i] == before[i]);
    }
}

} // verus!
