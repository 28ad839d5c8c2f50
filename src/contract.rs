use vstd::prelude::*;
use vstd::string::StringExecFns;
use crate::config::ContractInfo;
use crate::items::ItemStore;
use crate::payment::BankTransfer;
use crate::store::CollectionStore;
use crate::state::Coin;
use crate::text::to_owned_string;
use crate::error::ContractError;
use crate::msg::MigrateMsg;
use crate::checks::{are_treasuries_valid, is_status_valid};
use crate::state::{Collection, Item};
use crate::store::{coll_id, stored_collection_ok};
use crate::items::item_key;

verus! {

/// Who makes a call and what funds come with it.
pub struct CallInfo {
    pub sender: String,
    pub funds: Vec<Coin>,
}

/// A key/value attribute of a response.
#[derive(Debug, PartialEq)]
pub struct Attr {
    pub key: String,
    pub value: String,
}

/// What a successful call hands back to the host: bank transfers to make, and
/// attributes that describe the call.
#[derive(Debug, PartialEq)]
pub struct Response {
    pub messages: Vec<BankTransfer>,
    pub attributes: Vec<Attr>,
}

/// Everything the contract keeps: its configuration, the collections and the staged
/// items.
pub struct ContractState {
    pub info: ContractInfo,
    pub collections: CollectionStore,
    pub items: ItemStore,
}

impl ContractState {
    pub open spec fn wf(&self) -> bool {
        self.collections.wf() && self.items.wf()
    }

    /// A contract with the given configuration and no collections or items.
    pub fn new(info: ContractInfo) -> (r: ContractState)
        ensures
            r.wf(),
            r.info == info,
            r.collections.view().len() == 0,
            r.items.view().len() == 0,
    {
        ContractState { info, collections: CollectionStore::new(), items: ItemStore::new() }
    }
}

/// The configuration a contract starts with.
pub struct InstantiateMsg {
    pub allowed_admins: Option<Vec<String>>,
    pub treasuries: Option<Vec<String>>,
    pub fees: Option<Vec<crate::config::Fee>>,
    pub log_last_payment: Option<bool>,
}

/// Starts a contract whose configuration is the given one (the caller is the sole admin
/// when none are given) and which has no collections or items yet.
pub fn instantiate(info: &CallInfo, msg: InstantiateMsg) -> (r: (ContractState, Response))
    ensures
        r.0.wf(),
        r.0.collections.view().len() == 0,
        r.0.items.view().len() == 0,
        match msg.allowed_admins {
            Some(a) => r.0.info.allowed_admins@ == a@,
            None => r.0.info.allowed_admins@ == seq![info.sender],
        },
        match msg.treasuries {
            Some(t) => r.0.info.treasuries@ == t@,
            None => r.0.info.treasuries@.len() == 0,
        },
        match msg.fees {
            Some(f) => r.0.info.fees@ == f@,
            None => r.0.info.fees@.len() == 0,
        },
        r.0.info.log_last_payment == (msg.log_last_payment == Some(true)),
        r.1.messages@.len() == 0,
        r.1.attributes@.len() == 2,
        r.1.attributes@[0].key@ == "method"@ && r.1.attributes@[0].value@ == "instantiate"@,
        r.1.attributes@[1].key@ == "owner"@ && r.1.attributes@[1].value@ == info.sender@,
{
    let allowed_admins = match msg.allowed_admins {
        Some(a) => a,
        None => vec![info.sender.clone()],
    };
    let treasuries = match msg.treasuries {
        Some(t) => t,
        None => Vec::new(),
    };
    let fees = match msg.fees {
        Some(f) => f,
        None => Vec::new(),
    };
    let log_last_payment = match msg.log_last_payment {
        Some(b) => b,
        None => false,
    };
    let state = ContractState::new(ContractInfo { allowed_admins, treasuries, fees, log_last_payment });
    let mut attributes: Vec<Attr> = Vec::new();
    attributes.push(Attr { key: to_owned_string("method"), value: to_owned_string("instantiate") });
    attributes.push(Attr { key: to_owned_string("owner"), value: info.sender.clone() });
    (state, Response { messages: Vec::new(), attributes })
}

/// Whether `who` is one of the contract's admins.
pub fn is_admin(info: &ContractInfo, who: &String) -> (r: bool)
    ensures
        r == exists|i: int| 0 <= i < info.allowed_admins@.len() && (#[trigger] info.allowed_admins@[i])@ == who@,
{
    let mut i: usize = 0;
    while i < info.allowed_admins.len()
        invariant
            i <= info.allowed_admins@.len(),
            forall|j: int| 0 <= j < i ==> (#[trigger] info.allowed_admins@[j])@ != who@,
        decreases info.allowed_admins.len() - i,
    {
        if info.allowed_admins[i] == *who {
            return true;
        }
        i = i + 1;
    }
    false
}

/// Lets an admin replace the fee schedule, the contract's treasuries and the payment
/// logging flag (each when given). Anyone else gets `Unauthorized`, and nothing changes.
pub fn update_contract_info(
    state: &mut ContractState,
    info: &CallInfo,
    fees: Option<Vec<crate::config::Fee>>,
    treasuries: Option<Vec<String>>,
    log_last_payment: Option<bool>,
) -> (r: Result<Response, ContractError>)
    requires
        old(state).wf(),
    ensures
        final(state).wf(),
        final(state).collections.view() == old(state).collections.view(),
        final(state).items.view() == old(state).items.view(),
        final(state).info.allowed_admins@ == old(state).info.allowed_admins@,
        ({
            let admin = exists|i: int|
                0 <= i < old(state).info.allowed_admins@.len()
                    && (#[trigger] old(state).info.allowed_admins@[i])@ == info.sender@;
            &&& !admin ==> (r matches Err(ContractError::Unauthorized { .. })) && final(state).info
                == old(state).info
            &&& admin ==> r is Ok && (match fees {
                Some(f) => final(state).info.fees@ == f@,
                None => final(state).info.fees@ == old(state).info.fees@,
            }) && (match treasuries {
                Some(t) => final(state).info.treasuries@ == t@,
                None => final(state).info.treasuries@ == old(state).info.treasuries@,
            }) && (match log_last_payment {
                Some(b) => final(state).info.log_last_payment == b,
                None => final(state).info.log_last_payment == old(state).info.log_last_payment,
            })
        }),
{
    if !is_admin(&state.info, &info.sender) {
        return Err(ContractError::Unauthorized {  });
    }
    match fees {
        Some(f) => {
            state.info.fees = f;
        },
        None => {},
    }
    match treasuries {
        Some(t) => {
            state.info.treasuries = t;
        },
        None => {},
    }
    match log_last_payment {
        Some(b) => {
            state.info.log_last_payment = b;
        },
        None => {},
    }
    Ok(
        common_response(
            to_owned_string("contract_info"),
            "update_contract_info",
            true,
            None,
            None,
        ),
    )
}

/// Answers a migration: the method and the message it came with.
pub fn migrate(msg: MigrateMsg) -> (r: Response)
    ensures
        r.messages@.len() == 0,
        r.attributes@.len() == 2,
        r.attributes@[0].key@ == "method"@ && r.attributes@[0].value@ == "migrate"@,
        r.attributes@[1].key@ == "message"@ && r.attributes@[1].value@ == msg.message@,
{
    let mut attributes: Vec<Attr> = Vec::new();
    attributes.push(Attr { key: to_owned_string("method"), value: to_owned_string("migrate") });
    attributes.push(Attr { key: to_owned_string("message"), value: msg.message });
    Response { messages: Vec::new(), attributes }
}

/// Saved collections that a store can hold: each has an owner, a known status and
/// treasuries (if any) sharing out 100 percent, and no two share an identifier.
pub open spec fn saved_collections_ok(s: Seq<Collection>) -> bool {
    &&& forall|i: int| 0 <= i < s.len() ==> stored_collection_ok(#[trigger] s[i])
    &&& forall|a: int, b: int|
        0 <= a < s.len() && 0 <= b < s.len() && a != b ==> coll_id(#[trigger] s[a]) != coll_id(
            #[trigger] s[b],
        )
}

/// Saved items that a store can hold: no two share a key.
pub open spec fn saved_items_ok(s: Seq<Item>) -> bool {
    forall|a: int, b: int|
        0 <= a < s.len() && 0 <= b < s.len() && a != b ==> item_key(#[trigger] s[a]) != item_key(
            #[trigger] s[b],
        )
}

proof fn lemma_insert_contains<A>(s: Seq<A>, p: int, c: A, x: A)
    requires
        0 <= p <= s.len(),
    ensures
        s.insert(p, c).contains(x) <==> (s.contains(x) || x == c),
{
    let t = s.insert(p, c);
    if t.contains(x) {
        let j = choose|j: int| 0 <= j < t.len() && t[j] == x;
        if j < p {
            assert(s[j] == x);
        } else if j > p {
            assert(s[j - 1] == x);
        }
    }
    if s.contains(x) {
        let j = choose|j: int| 0 <= j < s.len() && s[j] == x;
        if j < p {
            assert(t[j] == x);
        } else {
            assert(t[j + 1] == x);
        }
    }
    if x == c {
        assert(t[p] == x);
    }
}

/// Rebuilds a contract from saved collections and items. It succeeds exactly when the
/// saved collections and items are ones that the stores can hold; the rebuilt stores then
/// hold exactly the saved records.
pub fn restore(info: ContractInfo, collections: Vec<Collection>, items: Vec<Item>) -> (r: Result<
    ContractState,
    ContractError,
>)
    ensures
        r is Ok <==> saved_collections_ok(collections@) && saved_items_ok(items@),
        r matches Ok(st) ==> {
            &&& st.wf()
            &&& st.info == info
            &&& forall|c: Collection| #[trigger] st.collections.view().contains(c) <==> collections@.contains(c)
            &&& forall|it: Item| #[trigger] st.items.view().contains(it) <==> items@.contains(it)
        },
{
    let ghost cs = collections@;
    let ghost its = items@;
    let mut state = ContractState::new(info);
    let mut rest_c = collections;
    let mut rest_i = items;
    while rest_c.len() > 0
        invariant
            state.wf(),
            state.info == info,
            cs == collections@,
            its == items@,
            state.items.view().len() == 0,
            rest_i@ == its,
            rest_c@.len() <= cs.len(),
            rest_c@ == cs.subrange(0, rest_c@.len() as int),
            forall|i: int| rest_c@.len() <= i < cs.len() ==> stored_collection_ok(#[trigger] cs[i]),
            forall|a: int, b: int|
                rest_c@.len() <= a < cs.len() && rest_c@.len() <= b < cs.len() && a != b
                    ==> coll_id(#[trigger] cs[a]) != coll_id(#[trigger] cs[b]),
            forall|c: Collection|
                #[trigger] state.collections.view().contains(c) <==> exists|j: int|
                    rest_c@.len() <= j < cs.len() && cs[j] == c,
        decreases rest_c.len(),
    {
        let k = rest_c.len() - 1;
        let ghost before = state.collections.view();
        let c = rest_c.pop().unwrap();
        assert(rest_c@ =~= cs.subrange(0, k as int));
        assert(c == cs[k as int]);
        let status_ok = match c.status {
            Some(s) => is_status_valid(s),
            None => false,
        };
        if c.owner.is_none() || !status_ok {
            assert(!stored_collection_ok(cs[k as int]));
            return Err(
                ContractError::InvalidCollectionStatus {
                    text: to_owned_string("A saved collection lacks an owner or a known status"),
                },
            );
        }
        match are_treasuries_valid(&c.treasuries) {
            Err(e) => {
                assert(!stored_collection_ok(cs[k as int]));
                return Err(e);
            },
            Ok(_) => {},
        }
        let ghost cc = c;
        match state.collections.insert(c) {
            Err(e) => {
                proof {
                    let w = choose|w: int|
                        0 <= w < before.len() && coll_id(#[trigger] before[w]) == coll_id(cc);
                    assert(before.contains(before[w]));
                    let j = choose|j: int| k < j < cs.len() && cs[j] == before[w];
                    assert(coll_id(cs[j]) == coll_id(cs[k as int]));
                }
                return Err(e);
            },
            Ok(_) => {},
        }
        proof {
            let p = choose|p: int| 0 <= p <= before.len() && state.collections.view() == before.insert(p, cc);
            assert forall|x: Collection|
                #[trigger] state.collections.view().contains(x) <==> exists|j: int| k <= j < cs.len() && cs[j] == x by {
                lemma_insert_contains(before, p, cc, x);
                if exists|j: int| k <= j < cs.len() && cs[j] == x {
                    let j = choose|j: int| k <= j < cs.len() && cs[j] == x;
                    if j > k {
                        assert(exists|j2: int| k < j2 < cs.len() && cs[j2] == x);
                    }
                }
            }
            assert forall|a: int, b: int|
                k <= a < cs.len() && k <= b < cs.len() && a != b implies coll_id(#[trigger] cs[a]) != coll_id(
                    #[trigger] cs[b],
                ) by {
                if a == k || b == k {
                    let o = if a == k { b } else { a };
                    assert(before.contains(cs[o]));
                    let w = choose|w: int| 0 <= w < before.len() && before[w] == cs[o];
                    assert(coll_id(before[w]) != coll_id(cc));
                }
            }
        }
    }
    assert(cs.subrange(0, 0) =~= Seq::<Collection>::empty());
    assert forall|c: Collection| #[trigger] state.collections.view().contains(c) <==> cs.contains(c) by {
        if cs.contains(c) {
            let j = choose|j: int| 0 <= j < cs.len() && cs[j] == c;
            assert(exists|j2: int| 0 <= j2 < cs.len() && cs[j2] == c);
        }
    }
    while rest_i.len() > 0
        invariant
            state.wf(),
            state.info == info,
            cs == collections@,
            its == items@,
            saved_collections_ok(cs),
            forall|c: Collection| #[trigger] state.collections.view().contains(c) <==> cs.contains(c),
            rest_i@.len() <= its.len(),
            rest_i@ == its.subrange(0, rest_i@.len() as int),
            forall|a: int, b: int|
                rest_i@.len() <= a < its.len() && rest_i@.len() <= b < its.len() && a != b
                    ==> item_key(#[trigger] its[a]) != item_key(#[trigger] its[b]),
            forall|x: Item|
                #[trigger] state.items.view().contains(x) <==> exists|j: int|
                    rest_i@.len() <= j < its.len() && its[j] == x,
        decreases rest_i.len(),
    {
        let k = rest_i.len() - 1;
        let ghost before = state.items.view();
        let it = rest_i.pop().unwrap();
        assert(rest_i@ =~= its.subrange(0, k as int));
        assert(it == its[k as int]);
        let ghost ic = it;
        match state.items.insert(it) {
            Err(e) => {
                proof {
                    let w = choose|w: int|
                        0 <= w < before.len() && item_key(#[trigger] before[w]) == item_key(ic);
                    assert(before.contains(before[w]));
                    let j = choose|j: int| k < j < its.len() && its[j] == before[w];
                    assert(item_key(its[j]) == item_key(its[k as int]));
                }
                return Err(e);
            },
            Ok(_) => {},
        }
        proof {
            let p = choose|p: int| 0 <= p <= before.len() && state.items.view() == before.insert(p, ic);
            assert forall|x: Item|
                #[trigger] state.items.view().contains(x) <==> exists|j: int| k <= j < its.len() && its[j] == x by {
                lemma_insert_contains(before, p, ic, x);
                if exists|j: int| k <= j < its.len() && its[j] == x {
                    let j = choose|j: int| k <= j < its.len() && its[j] == x;
                    if j > k {
                        assert(exists|j2: int| k < j2 < its.len() && its[j2] == x);
                    }
                }
            }
            assert forall|a: int, b: int|
                k <= a < its.len() && k <= b < its.len() && a != b implies item_key(#[trigger] its[a]) != item_key(
                    #[trigger] its[b],
                ) by {
                if a == k || b == k {
                    let o = if a == k { b } else { a };
                    assert(before.contains(its[o]));
                    let w = choose|w: int| 0 <= w < before.len() && before[w] == its[o];
                    assert(item_key(before[w]) != item_key(ic));
                }
            }
        }
    }
    assert forall|x: Item| #[trigger] state.items.view().contains(x) <==> its.contains(x) by {
        if its.contains(x) {
            let j = choose|j: int| 0 <= j < its.len() && its[j] == x;
            assert(exists|j2: int| 0 <= j2 < its.len() && its[j2] == x);
        }
    }
    Ok(state)
}

impl ContractState {
    /// Copies of every collection and every staged item, in store order.
    pub fn export(&self) -> (r: (Vec<Collection>, Vec<Item>))
        ensures
            r.0@.len() == self.collections.view().len(),
            forall|k: int| 0 <= k < r.0@.len() ==> (#[trigger] r.0@[k]).equiv(self.collections.view()[k]),
            r.1@.len() == self.items.view().len(),
            forall|k: int| 0 <= k < r.1@.len() ==> (#[trigger] r.1@[k]).equiv(self.items.view()[k]),
    {
        let mut cs: Vec<Collection> = Vec::new();
        let mut i: usize = 0;
        while i < self.collections.len()
            invariant
                i <= self.collections.view().len(),
                cs@.len() == i,
                forall|k: int| 0 <= k < i ==> (#[trigger] cs@[k]).equiv(self.collections.view()[k]),
            decreases self.collections.view().len() - i,
        {
            cs.push(self.collections.get(i).duplicate());
            i = i + 1;
        }
        let mut its: Vec<Item> = Vec::new();
        let mut j: usize = 0;
        while j < self.items.len()
            invariant
                j <= self.items.view().len(),
                its@.len() == j,
                forall|k: int| 0 <= k < j ==> (#[trigger] its@[k]).equiv(self.items.view()[k]),
            decreases self.items.view().len() - j,
        {
            its.push(self.items.get(j).duplicate());
            j = j + 1;
        }
        (cs, its)
    }
}

/// The attribute value that reports the outcome of a call.
pub open spec fn status_text(succeeded: bool) -> Seq<char> {
    if succeeded {
        "1"@
    } else {
        "-1"@
    }
}

/// Builds the response of a call: the given transfers, then the attributes `key`,
/// `method`, `status` and, when given, `message`.
pub fn common_response(
    key: String,
    method: &str,
    succeeded: bool,
    message: Option<String>,
    bank_messages: Option<Vec<BankTransfer>>,
) -> (r: Response)
    ensures
        match bank_messages {
            Some(m) => r.messages@ == m@,
            None => r.messages@.len() == 0,
        },
        r.attributes@.len() == if message is Some {
            4int
        } else {
            3int
        },
        r.attributes@[0].key@ == "key"@ && r.attributes@[0].value@ == key@,
        r.attributes@[1].key@ == "method"@ && r.attributes@[1].value@ == method@,
        r.attributes@[2].key@ == "status"@ && r.attributes@[2].value@ == status_text(succeeded),
        message matches Some(m) ==> r.attributes@[3].key@ == "message"@ && r.attributes@[3].value@
            == m@,
{
    let messages = match bank_messages {
        Some(m) => m,
        None => Vec::new(),
    };
    let status = if succeeded {
        to_owned_string("1")
    } else {
        to_owned_string("-1")
    };
    let mut attributes: Vec<Attr> = Vec::new();
    attributes.push(Attr { key: to_owned_string("key"), value: key });
    attributes.push(Attr { key: to_owned_string("method"), value: to_owned_string(method) });
    attributes.push(Attr { key: to_owned_string("status"), value: status });
    match message {
        Some(m) => {
            attributes.push(Attr { key: to_owned_string("message"), value: m });
        },
        None => {},
    }
    Response { messages, attributes }
}

/// The key that responses report for a collection: owner, dash, collection identifier.
pub fn response_key(owner: &String, id: &String) -> (r: String)
    ensures
        r@ == owner@ + "-"@ + id@,
{
    let a = owner.clone().concat("-");
    a.concat(id.as_str())
}

} // verus!
