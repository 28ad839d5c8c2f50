use pix0_collection_contract::config::Fee;
use pix0_collection_contract::config::ContractInfo;
use pix0_collection_contract::contract::{instantiate, restore, update_contract_info, CallInfo, ContractState, InstantiateMsg};
use pix0_collection_contract::ins::{create_collection, create_item, remove_collection, update_collection};
use pix0_collection_contract::mint::{complete_mint, mint_item, mint_item_by_name, pay_all_treasuries, simple_mint};
use pix0_collection_contract::query::{
    collection_category, get_active_collections, get_all_collections, get_collection, get_collections,
    get_item, get_items, get_items_count,
};
use pix0_collection_contract::state::{
    Attribute, Coin, Collection, Item, Link, PriceType, Treasury, ATTRB_ALLOWED_MINT_ITEM_BY_NAME,
    ATTRB_CATEGORY, COLLECTION_STATUS_ACTIVATED, COLLECTION_STATUS_DEACTIVATED, COLLECTION_STATUS_DRAFT,
    LINK_TYPE_IMAGE_URL, PRICE_TYPE_STANDARD,
};
use pix0_collection_contract::rng::RandomNumGen;

const OWNER: &str = "archway14l92fdhae4htjtkyla73f262c39cngf2wc65ky";
const ADMIN2: &str = "archway1upspu5660q39adv768z8ffk44ta6lzd4nfw2zw";
const ADMIN3: &str = "archway1cz5a70ja86ak40de7r6vgm2lr9mtgvue5sj5kp";
const T1: &str = "archway1nxqd7h869sj9pn0xyq0lqqqxjqx6vt550z4aj7";
const T2: &str = "archway122w9rr76aac9pmke9qq6ya5l8245qr44h8jvtm";

fn uconst(amount: u128) -> Coin {
    Coin { amount, denom: "uconst".to_string() }
}

fn call(sender: &str, amount: u128) -> CallInfo {
    CallInfo { sender: sender.to_string(), funds: vec![uconst(amount)] }
}

fn fee(name: &str, amount: u128) -> Fee {
    Fee { name: name.to_string(), value: uconst(amount) }
}

fn contract(fees: Vec<Fee>) -> ContractState {
    let msg = InstantiateMsg {
        allowed_admins: Some(vec![OWNER.to_string()]),
        treasuries: Some(vec![OWNER.to_string(), ADMIN2.to_string(), ADMIN3.to_string()]),
        fees: Some(fees),
        log_last_payment: Some(true),
    };
    instantiate(&call(OWNER, 134000), msg).0
}

fn standard_price(amount: u128) -> Vec<PriceType> {
    vec![PriceType { price_type: PRICE_TYPE_STANDARD, value: uconst(amount), date_start: None, date_end: None }]
}

fn treasuries_70_30() -> Vec<Treasury> {
    vec![
        Treasury { wallet: T1.to_string(), percentage: 70, name: None },
        Treasury { wallet: T2.to_string(), percentage: 30, name: None },
    ]
}

fn collection(name: &str, symbol: &str, status: u8, attributes: Vec<Attribute>, price: u128) -> Collection {
    Collection {
        owner: Some(OWNER.to_string()),
        name: name.to_string(),
        symbol: symbol.to_string(),
        description: Some(format!("Description of {}", name)),
        treasuries: Some(treasuries_70_30()),
        attributes: Some(attributes),
        prices: Some(standard_price(price)),
        royalties: None,
        status: Some(status),
        date_created: None,
        date_updated: None,
    }
}

fn item(name: &str, collection_name: &str, symbol: &str, x: usize) -> Item {
    Item {
        collection_owner: OWNER.to_string(),
        collection_name: collection_name.to_string(),
        collection_symbol: symbol.to_string(),
        name: name.to_string(),
        description: None,
        links: vec![Link { link_type: LINK_TYPE_IMAGE_URL, value: format!("https://rm.img/img_000{}.png", x) }],
        traits: Vec::new(),
        background_color: None,
        date_created: None,
        date_updated: None,
    }
}

fn count(state: &ContractState, name: &str, symbol: &str) -> usize {
    get_items_count(state, &OWNER.to_string(), &name.to_string(), &symbol.to_string()).count
}

fn mint_by_name_attr() -> Vec<Attribute> {
    vec![Attribute { name: ATTRB_ALLOWED_MINT_ITEM_BY_NAME.to_string(), value: "true".to_string() }]
}

#[test]
fn test_create_collection_mint_item() {
    let mut state = contract(vec![
        fee("CREATE_COLLECTION_FEE", 1500),
        fee("CREATE_ITEM_FEE", 3500),
        fee("NFT_MINTING_FEE", 6400),
    ]);
    let info = call(OWNER, 134000);
    let name = "Test Collection 111111";
    let symb = "Coll.x.111";
    let res = create_collection(&mut state, 1, &info, collection(name, symb, COLLECTION_STATUS_ACTIVATED, mint_by_name_attr(), 123900))
        .unwrap();
    let fee_amounts: Vec<u128> = res.messages.iter().map(|t| t.amount).collect();
    assert_eq!(fee_amounts, vec![500, 500, 500]);
    for x in 0..30 {
        let r = create_item(&mut state, 2, &info, item(&format!("Item #00{}", x + 1), name, symb, x));
        assert!(r.is_ok());
    }
    assert_eq!(count(&state, name, symb), 30);

    let plan = mint_item(&state, &info, 42, OWNER.to_string(), name.to_string(), symb.to_string(),
        Some(PRICE_TYPE_STANDARD), Some("https://some.metadata/x199x.json".to_string()), None).unwrap();
    assert_eq!(plan.item.name, "Item #0030");
    assert_eq!(plan.method, "random-mint");
    assert_eq!(plan.metadata.image, Some("https://rm.img/img_00029.png".to_string()));
    let amounts: Vec<u128> = plan.transfers.iter().map(|t| t.amount).collect();
    assert_eq!(amounts, vec![86730, 37170, 2134, 2133, 2133]);
    let resp = complete_mint(&mut state, plan, Ok(())).unwrap();
    assert_eq!(resp.messages.len(), 5);
    assert_eq!(count(&state, name, symb), 29);

    let plan = mint_item_by_name(&state, &info, "Item #002".to_string(), OWNER.to_string(), name.to_string(),
        symb.to_string(), Some(PRICE_TYPE_STANDARD), Some("https://some.metadata/x208y.json".to_string()), None)
        .unwrap();
    assert_eq!(plan.item.name, "Item #002");
    assert_eq!(plan.method, "mint-by-name");
    complete_mint(&mut state, plan, Ok(())).unwrap();
    assert_eq!(count(&state, name, symb), 28);

    let rs = remove_collection(&mut state, &info, name.to_string(), symb.to_string());
    assert_eq!(rs.unwrap_err().kind(), "InvalidCollectionStatus");
    assert_eq!(count(&state, name, symb), 28);

    let (again, _) = instantiate(&info, InstantiateMsg { allowed_admins: None, treasuries: None, fees: None, log_last_payment: None });
    assert_eq!(again.info.allowed_admins, vec![OWNER.to_string()]);
}

#[test]
fn test_pay_nft_minting_fee() {
    let state = contract(vec![fee("NFT_MINTING_FEE", 7500)]);
    let msgs = state.info.try_paying_contract_treasuries(&vec![uconst(134000)], "NFT_MINTING_FEE").unwrap();
    let amounts: Vec<u128> = msgs.iter().map(|t| t.amount).collect();
    assert_eq!(amounts, vec![2500, 2500, 2500]);
    assert_eq!(msgs[1].to_address, ADMIN2);
}

#[test]
fn test_loop_create_collections() {
    let mut state = contract(vec![
        fee("CREATE_COLLECTION_FEE", 1500),
        fee("CREATE_ITEM_FEE", 3500),
        fee("NFT_MINTING_FEE", 6400),
    ]);
    let info = call(OWNER, 134000);
    let cats = vec!["art", "music", "game assets"];
    let mut rng = RandomNumGen::new(3390);
    for i in 0..7000 {
        let cat = cats.get(rng.generate_range(0, (cats.len() - 1) as u64) as usize).unwrap();
        let attbs = vec![Attribute { name: ATTRB_CATEGORY.to_string(), value: cat.to_string() }];
        let c = Collection {
            owner: Some(OWNER.to_string()),
            name: format!("Test Collection 00{}", i),
            symbol: format!("TC{}", i),
            description: Some(format!("Description of test collection 00{}", i)),
            treasuries: Some(treasuries_70_30()),
            attributes: Some(attbs),
            prices: Some(standard_price(123900)),
            royalties: None,
            status: Some(COLLECTION_STATUS_ACTIVATED),
            date_created: None,
            date_updated: None,
        };
        assert!(create_collection(&mut state, i as u64, &info, c).is_ok());
    }
    let result = get_active_collections(&state, Some("0032".to_string()), Some("art".to_string()), Some(21), Some(20));
    assert_eq!(result.total, Some(55));
    assert_eq!(result.collections.len(), 20);
    assert_eq!(result.collections[0].name, "Test Collection 003257");
    assert_eq!(result.collections[19].name, "Test Collection 003219");
    assert!(result.collections.windows(2).all(|w| w[0].date_created > w[1].date_created));
    for c in result.collections.iter() {
        assert_eq!(collection_category(c), "art");
        assert!(c.name.contains("0032"));
    }
}

#[test]
fn scenario_mint_with_seed_42() {
    let mut state = contract(vec![]);
    let a = "wallet-a";
    let b = "wallet-b";
    let mut c = collection("Test Collection", "TC1", COLLECTION_STATUS_ACTIVATED, vec![], 100);
    c.treasuries = Some(vec![
        Treasury { wallet: a.to_string(), percentage: 70, name: None },
        Treasury { wallet: b.to_string(), percentage: 30, name: None },
    ]);
    let info = call(OWNER, 100);
    create_collection(&mut state, 1, &info, c).unwrap();
    for x in 0..5 {
        create_item(&mut state, 2, &info, item(&format!("Item #00{}", x + 1), "Test Collection", "TC1", x)).unwrap();
    }
    assert_eq!(count(&state, "Test Collection", "TC1"), 5);
    let plan = mint_item(&state, &info, 42, OWNER.to_string(), "Test Collection".to_string(), "TC1".to_string(),
        None, None, None).unwrap();
    assert_eq!(plan.item.name, "Item #004");
    assert_eq!(plan.transfers.len(), 2);
    assert_eq!((plan.transfers[0].to_address.as_str(), plan.transfers[0].amount), (a, 70));
    assert_eq!((plan.transfers[1].to_address.as_str(), plan.transfers[1].amount), (b, 30));
    let resp = complete_mint(&mut state, plan, Ok(())).unwrap();
    assert_eq!(resp.messages.iter().map(|t| t.amount).sum::<u128>(), 100);
    assert_eq!(resp.attributes[0].value, "random-mint");
    assert_eq!(count(&state, "Test Collection", "TC1"), 4);
    let gone = get_item(&state, &OWNER.to_string(), &"Test Collection".to_string(), &"TC1".to_string(), &"Item #004".to_string());
    assert!(gone.item.is_none());
}

#[test]
fn second_collection_with_same_name_and_symbol_is_rejected() {
    let mut state = contract(vec![]);
    let info = call(OWNER, 100);
    create_collection(&mut state, 1, &info, collection("Art", "A1", COLLECTION_STATUS_DRAFT, vec![], 10)).unwrap();
    let again = create_collection(&mut state, 2, &info, collection("Art", "A1", COLLECTION_STATUS_DRAFT, vec![], 10));
    assert_eq!(again.unwrap_err().kind(), "CollectionAlreadyExists");
    let other = call("someone-else", 100);
    let theirs = create_collection(&mut state, 3, &other, collection("Art", "A1", COLLECTION_STATUS_DRAFT, vec![], 10));
    assert_eq!(theirs.unwrap_err().kind(), "CollectionAlreadyExists");
    assert_eq!(get_all_collections(&state, None, None).collections.len(), 1);
}

#[test]
fn invalid_creations_are_rejected() {
    let mut state = contract(vec![fee("CREATE_COLLECTION_FEE", 1500)]);
    let info = call(OWNER, 100000);
    let mut c = collection("Bad", "B", COLLECTION_STATUS_DRAFT, vec![], 10);
    c.treasuries = Some(vec![Treasury { wallet: T1.to_string(), percentage: 99, name: None }]);
    assert_eq!(create_collection(&mut state, 1, &info, c).unwrap_err().kind(), "InvalidAllocationsForTreasuries");
    let mut c = collection("Bad", "B", COLLECTION_STATUS_DRAFT, vec![], 10);
    c.royalties = Some(vec![pix0_collection_contract::state::Royalty { wallet: T1.to_string(), percentage: 16, name: None }]);
    assert_eq!(create_collection(&mut state, 1, &info, c).unwrap_err().kind(), "InvalidAllocationsForRoyalties");
    let c = collection("Bad", "B", 7, vec![], 10);
    assert_eq!(create_collection(&mut state, 1, &info, c).unwrap_err().kind(), "InvalidCollectionStatus");
    let c = collection("Bad", "B", COLLECTION_STATUS_DRAFT, vec![], 10);
    assert_eq!(create_collection(&mut state, 1, &call(OWNER, 10), c).unwrap_err().kind(), "InsufficientFund");
    assert_eq!(get_all_collections(&state, None, None).collections.len(), 0);
    let mut c = collection("Good", "G", COLLECTION_STATUS_DRAFT, vec![], 10);
    c.status = None;
    create_collection(&mut state, 5, &info, c).unwrap();
    let stored = get_collection(&state, &OWNER.to_string(), &"Good".to_string(), &"G".to_string()).collection.unwrap();
    assert_eq!(stored.status, Some(COLLECTION_STATUS_DRAFT));
    assert_eq!(stored.date_created, Some(5));
    assert_eq!(stored.date_updated, Some(5));
}

#[test]
fn removing_a_draft_collection_removes_its_items() {
    let mut state = contract(vec![]);
    let info = call(OWNER, 100);
    for (n, s, st) in [("Draft", "D", COLLECTION_STATUS_DRAFT), ("Off", "O", COLLECTION_STATUS_DEACTIVATED), ("Kept", "K", COLLECTION_STATUS_DRAFT)] {
        create_collection(&mut state, 1, &info, collection(n, s, st, vec![], 10)).unwrap();
        for x in 0..3 {
            create_item(&mut state, 2, &info, item(&format!("I{}", x), n, s, x)).unwrap();
        }
    }
    remove_collection(&mut state, &info, "Draft".to_string(), "D".to_string()).unwrap();
    remove_collection(&mut state, &info, "Off".to_string(), "O".to_string()).unwrap();
    assert_eq!(count(&state, "Draft", "D"), 0);
    assert_eq!(count(&state, "Off", "O"), 0);
    assert_eq!(count(&state, "Kept", "K"), 3);
    assert!(get_collection(&state, &OWNER.to_string(), &"Draft".to_string(), &"D".to_string()).collection.is_none());
    let missing = remove_collection(&mut state, &info, "Draft".to_string(), "D".to_string());
    assert_eq!(missing.unwrap_err().kind(), "CollectionNotFound");
}

#[test]
fn activated_collection_cannot_be_removed() {
    let mut state = contract(vec![]);
    let info = call(OWNER, 100);
    create_collection(&mut state, 1, &info, collection("Live", "L", COLLECTION_STATUS_ACTIVATED, vec![], 10)).unwrap();
    create_item(&mut state, 2, &info, item("I", "Live", "L", 0)).unwrap();
    let r = remove_collection(&mut state, &info, "Live".to_string(), "L".to_string());
    assert_eq!(r.unwrap_err().kind(), "InvalidCollectionStatus");
    assert_eq!(count(&state, "Live", "L"), 1);
}

#[test]
fn minting_needs_an_activated_collection() {
    let mut state = contract(vec![]);
    let info = call(OWNER, 100);
    for (n, s, st) in [("Draft", "D", COLLECTION_STATUS_DRAFT), ("Off", "O", COLLECTION_STATUS_DEACTIVATED)] {
        create_collection(&mut state, 1, &info, collection(n, s, st, mint_by_name_attr(), 10)).unwrap();
        create_item(&mut state, 2, &info, item("I", n, s, 0)).unwrap();
        let r = mint_item(&state, &info, 1, OWNER.to_string(), n.to_string(), s.to_string(), None, None, None);
        assert_eq!(r.err().unwrap().kind(), "NftStatusIsNotReadyForMinting");
        let r = mint_item_by_name(&state, &info, "I".to_string(), OWNER.to_string(), n.to_string(), s.to_string(), None, None, None);
        assert_eq!(r.err().unwrap().kind(), "NftStatusIsNotReadyForMinting");
    }
}

#[test]
fn failed_delegated_mint_keeps_the_item() {
    let mut state = contract(vec![]);
    let info = call(OWNER, 100);
    create_collection(&mut state, 1, &info, collection("Live", "L", COLLECTION_STATUS_ACTIVATED, vec![], 10)).unwrap();
    create_item(&mut state, 2, &info, item("I", "Live", "L", 0)).unwrap();
    let plan = mint_item(&state, &info, 9, OWNER.to_string(), "Live".to_string(), "L".to_string(), None, None, None).unwrap();
    let r = complete_mint(&mut state, plan, Err("token already claimed".to_string()));
    let e = r.unwrap_err();
    assert_eq!(e.kind(), "CustomErrorMesg");
    assert_eq!(e.detail(), "token already claimed");
    assert_eq!(count(&state, "Live", "L"), 1);
    let plan = mint_item(&state, &info, 9, OWNER.to_string(), "Live".to_string(), "L".to_string(), None, None, Some("tok-1".to_string())).unwrap();
    assert_eq!(plan.token_id, "tok-1");
    complete_mint(&mut state, plan, Ok(())).unwrap();
    assert_eq!(count(&state, "Live", "L"), 0);
}

#[test]
fn mint_failures_are_reported() {
    let mut state = contract(vec![]);
    let info = call(OWNER, 100);
    let r = mint_item(&state, &info, 1, OWNER.to_string(), "None".to_string(), "N".to_string(), None, None, None);
    assert_eq!(r.err().unwrap().kind(), "CollectionNotFound");
    create_collection(&mut state, 1, &info, collection("Live", "L", COLLECTION_STATUS_ACTIVATED, vec![], 10)).unwrap();
    let r = mint_item(&state, &info, 1, OWNER.to_string(), "Live".to_string(), "L".to_string(), None, None, None);
    assert_eq!(r.err().unwrap().kind(), "FailedToFindNft");
    let r = mint_item_by_name(&state, &info, "I".to_string(), OWNER.to_string(), "Live".to_string(), "L".to_string(), None, None, None);
    assert_eq!(r.err().unwrap().kind(), "MintByNameIsNotAllowed");
    create_item(&mut state, 2, &info, item("I", "Live", "L", 0)).unwrap();
    let r = mint_item(&state, &info, 1, OWNER.to_string(), "Live".to_string(), "L".to_string(), Some(3), None, None);
    assert_eq!(r.err().unwrap().kind(), "PriceTypeNotFound");
    let poor = call(OWNER, 9);
    let r = mint_item(&state, &poor, 1, OWNER.to_string(), "Live".to_string(), "L".to_string(), None, None, None);
    let e = r.err().unwrap();
    assert_eq!(e.kind(), "InsufficientFund");
    assert_eq!(e.detail(), "Insufficient fund: sent:9uconst, required: 10uconst!");
    let nothing = CallInfo { sender: OWNER.to_string(), funds: vec![] };
    let r = mint_item(&state, &nothing, 1, OWNER.to_string(), "Live".to_string(), "L".to_string(), None, None, None);
    assert_eq!(r.err().unwrap().kind(), "InsufficientFund");

    create_collection(&mut state, 1, &info, collection("Named", "N", COLLECTION_STATUS_ACTIVATED, mint_by_name_attr(), 10)).unwrap();
    let r = mint_item_by_name(&state, &info, "missing".to_string(), OWNER.to_string(), "Named".to_string(), "N".to_string(), None, None, None);
    assert_eq!(r.err().unwrap().kind(), "FailedToFindNft");
}

#[test]
fn duplicate_or_orphan_items_are_rejected() {
    let mut state = contract(vec![]);
    let info = call(OWNER, 100);
    let r = create_item(&mut state, 2, &info, item("I", "Nowhere", "N", 0));
    assert_eq!(r.unwrap_err().kind(), "CollectionNotFound");
    create_collection(&mut state, 1, &info, collection("Here", "H", COLLECTION_STATUS_DRAFT, vec![], 10)).unwrap();
    create_item(&mut state, 2, &info, item("I", "Here", "H", 0)).unwrap();
    let r = create_item(&mut state, 3, &info, item("I", "Here", "H", 1));
    assert_eq!(r.unwrap_err().kind(), "ItemAlreadyExists");
    assert_eq!(count(&state, "Here", "H"), 1);
}

#[test]
fn update_merges_only_supplied_fields() {
    let mut state = contract(vec![]);
    let info = call(OWNER, 100);
    create_collection(&mut state, 1, &info, collection("Up", "U", COLLECTION_STATUS_DRAFT, vec![], 10)).unwrap();
    let mut req = collection("Up", "U", COLLECTION_STATUS_DRAFT, vec![], 10);
    req.description = Some("new text".to_string());
    req.treasuries = None;
    req.attributes = None;
    req.prices = None;
    req.status = Some(COLLECTION_STATUS_ACTIVATED);
    let r = update_collection(&mut state, 9, &info, req).unwrap();
    assert_eq!(r.attributes[2].value, "1");
    let c = get_collection(&state, &OWNER.to_string(), &"Up".to_string(), &"U".to_string()).collection.unwrap();
    assert_eq!(c.description, Some("new text".to_string()));
    assert_eq!(c.status, Some(COLLECTION_STATUS_ACTIVATED));
    assert_eq!(c.treasuries, Some(treasuries_70_30()));
    assert_eq!(c.date_created, Some(1));
    assert_eq!(c.date_updated, Some(9));

    let empty = Collection {
        owner: None, name: "Up".to_string(), symbol: "U".to_string(), description: None, treasuries: None,
        attributes: None, prices: None, royalties: None, status: None, date_created: None, date_updated: None,
    };
    let r = update_collection(&mut state, 10, &info, empty.clone()).unwrap();
    assert_eq!(r.attributes[2].value, "-1");
    assert_eq!(r.attributes[3].value, "Nothing updated!");
    let c = get_collection(&state, &OWNER.to_string(), &"Up".to_string(), &"U".to_string()).collection.unwrap();
    assert_eq!(c.date_updated, Some(9));

    let mut bad = empty.clone();
    bad.status = Some(3);
    assert_eq!(update_collection(&mut state, 11, &info, bad).unwrap_err().kind(), "InvalidCollectionStatus");
    let mut missing = empty.clone();
    missing.name = "Other".to_string();
    missing.status = Some(COLLECTION_STATUS_DRAFT);
    assert_eq!(update_collection(&mut state, 11, &info, missing).unwrap_err().kind(), "CollectionNotFound");
}

#[test]
fn listing_is_paged_by_identifier() {
    let mut state = contract(vec![]);
    let info = call(OWNER, 100);
    for i in 0..25 {
        create_collection(&mut state, 1, &info, collection(&format!("C{:02}", i), "S", COLLECTION_STATUS_DRAFT, vec![], 10)).unwrap();
    }
    let other = call(T1, 100);
    create_collection(&mut state, 1, &other, collection("Z", "S", COLLECTION_STATUS_DRAFT, vec![], 10)).unwrap();
    let page = get_collections(&state, &OWNER.to_string(), None, None).collections;
    assert_eq!(page.len(), 10);
    assert_eq!(page[0].name, "C00");
    let mut req = collection("C05", "S", COLLECTION_STATUS_DRAFT, vec![], 10);
    req.description = Some("touched".to_string());
    update_collection(&mut state, 7, &info, req).unwrap();
    let page = get_collections(&state, &OWNER.to_string(), None, None).collections;
    assert_eq!(page[0].name, "C00");
    assert_eq!(page[5].name, "C05");
    let page = get_collections(&state, &OWNER.to_string(), Some("C09-S".to_string()), Some(50)).collections;
    assert_eq!(page.len(), 15);
    assert_eq!(page[0].name, "C10");
    let all = get_all_collections(&state, Some("C20-S".to_string()), Some(20)).collections;
    assert_eq!(all.iter().map(|c| c.name.clone()).collect::<Vec<_>>(), vec!["C21", "C22", "C23", "C24", "Z"]);
    create_item(&mut state, 2, &info, item("b", "C00", "S", 0)).unwrap();
    create_item(&mut state, 2, &info, item("a", "C00", "S", 1)).unwrap();
    create_item(&mut state, 2, &info, item("c", "C00", "S", 2)).unwrap();
    let items = get_items(&state, &OWNER.to_string(), &"C00".to_string(), &"S".to_string(), Some("a".to_string()), None).items;
    assert_eq!(items.iter().map(|i| i.name.clone()).collect::<Vec<_>>(), vec!["b", "c"]);
}

#[test]
fn only_admins_update_the_configuration() {
    let mut state = contract(vec![]);
    let r = update_contract_info(&mut state, &call(T1, 0), Some(vec![fee("X", 1)]), None, None);
    assert_eq!(r.unwrap_err().kind(), "Unauthorized");
    assert!(state.info.fees.is_empty());
    update_contract_info(&mut state, &call(OWNER, 0), Some(vec![fee("X", 1)]), Some(vec![T2.to_string()]), Some(false)).unwrap();
    assert_eq!(state.info.fees.len(), 1);
    assert_eq!(state.info.treasuries, vec![T2.to_string()]);
    assert!(!state.info.log_last_payment);
}

#[test]
fn simple_mint_is_paid_by_its_own_fee() {
    let state = contract(vec![fee("SIMPLE_NFT_MINTING_FEE", 300)]);
    let it = item("Loose", "None", "N", 4);
    let plan = simple_mint(&state, &call(OWNER, 1000), it.clone(), None, None).unwrap();
    assert_eq!(plan.method, "simple-mint-nft");
    assert_eq!(plan.transfers.iter().map(|t| t.amount).collect::<Vec<_>>(), vec![100, 100, 100]);
    assert_eq!(plan.item, it);
    assert!(plan.collection_info.category.is_none());
    let nothing = CallInfo { sender: OWNER.to_string(), funds: vec![] };
    let r = simple_mint(&state, &nothing, it, None, None);
    assert_eq!(r.err().unwrap().kind(), "FailedToMakePayment");
}

#[test]
fn restore_rebuilds_exactly_the_saved_records() {
    let info = ContractInfo { allowed_admins: vec![], treasuries: vec![], fees: vec![], log_last_payment: false };
    let mut a = collection("A", "1", COLLECTION_STATUS_DRAFT, vec![], 10);
    a.status = Some(COLLECTION_STATUS_DRAFT);
    let b = collection("B", "2", COLLECTION_STATUS_ACTIVATED, vec![], 10);
    let items = vec![item("x", "A", "1", 0), item("y", "A", "1", 1)];
    let state = restore(info, vec![b.clone(), a.clone()], items).unwrap();
    let (cs, its) = state.export();
    assert_eq!(cs, vec![a.clone(), b.clone()]);
    assert_eq!(its.len(), 2);
    assert_eq!(count(&state, "A", "1"), 2);

    let info = || ContractInfo { allowed_admins: vec![], treasuries: vec![], fees: vec![], log_last_payment: false };
    assert!(restore(info(), vec![a.clone(), a.clone()], vec![]).is_err());
    let dup_items = vec![item("x", "A", "1", 0), item("x", "A", "1", 1)];
    assert!(restore(info(), vec![a.clone()], dup_items).is_err());
    let mut ownerless = a.clone();
    ownerless.owner = None;
    assert!(restore(info(), vec![ownerless], vec![]).is_err());
}

#[test]
fn payment_without_a_price_is_only_the_minting_fee() {
    let state = contract(vec![fee("NFT_MINTING_FEE", 300)]);
    let c = collection("P", "P", COLLECTION_STATUS_ACTIVATED, vec![], 10);
    let t = pay_all_treasuries(&state.info, &vec![uconst(1000)], &c, 3).unwrap();
    assert_eq!(t.iter().map(|x| x.amount).collect::<Vec<_>>(), vec![100, 100, 100]);
    assert!(pay_all_treasuries(&state.info, &vec![uconst(10)], &c, 3).is_none());
    let t = pay_all_treasuries(&state.info, &vec![uconst(1000)], &c, PRICE_TYPE_STANDARD).unwrap();
    assert_eq!(t.iter().map(|x| x.amount).collect::<Vec<_>>(), vec![7, 3, 100, 100, 100]);
}

#[test]
fn active_collections_of_equal_date_keep_identifier_order() {
    let mut state = contract(vec![]);
    let info = call(OWNER, 100);
    for (n, t) in [("b", 5), ("a", 5), ("c", 9), ("d", 1)] {
        create_collection(&mut state, t, &info, collection(n, "S", COLLECTION_STATUS_ACTIVATED, vec![], 10)).unwrap();
    }
    let r = get_active_collections(&state, None, None, None, None);
    assert_eq!(r.collections.iter().map(|c| c.name.clone()).collect::<Vec<_>>(), vec!["c", "a", "b", "d"]);
    assert_eq!(r.total, Some(4));
}
