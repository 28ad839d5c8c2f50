use vstd::prelude::*;
use crate::text::{str_equals, to_owned_string};

verus! {

pub const PRICE_TYPE_STANDARD: u8 = 1;

pub const PRICE_TYPE_WL: u8 = 2;

pub const PRICE_TYPE_OG: u8 = 3;

pub const COLLECTION_STATUS_DRAFT: u8 = 0;

pub const COLLECTION_STATUS_ACTIVATED: u8 = 1;

pub const COLLECTION_STATUS_DEACTIVATED: u8 = 2;

pub const ATTRB_ALLOWED_MINT_ITEM_BY_NAME: &'static str = "ALLOWED_MINT_ITEM_BY_NAME";

pub const ATTRB_CATEGORY: &'static str = "CATEGORY";

pub const ATTRB_MINT_CAP: &'static str = "MINT_CAP";

pub const LINK_TYPE_IMAGE_URL: u8 = 1;

pub const LINK_TYPE_EXTERNAL_LINK: u8 = 2;

pub const LINK_TYPE_VIDEO_URL: u8 = 3;

pub const LINK_TYPE_ANIMATION_URL: u8 = 4;

/// The trait type, and its display name, under which a minted token carries its
/// collection's summary.
pub const COLLECTION_INFO_TRAIT: &'static str = "collection-info";

pub const COLLECTION_INFO_DISPLAY: &'static str = "Collection Info";

/// The denomination reported for a call that attached no funds.
pub const DEFAULT_DENOM: &'static str = "uconst";

/// The wallet that stands in for a missing collection owner.
pub const UNKNOWN_WALLET: &'static str = "unknown";

/// An amount of one currency, as attached to a call or charged as a price.
#[derive(Debug, PartialEq)]
pub struct Coin {
    pub amount: u128,
    pub denom: String,
}

/// A pricing tier of a collection, with its price and an optional validity window
/// (block times in nanoseconds).
#[derive(Debug, PartialEq)]
pub struct PriceType {
    pub price_type: u8,
    pub value: Coin,
    pub date_start: Option<u64>,
    pub date_end: Option<u64>,
}

/// A name/value pair attached to a collection (category, mint-by-name flag, ...).
#[derive(Debug, PartialEq)]
pub struct Attribute {
    pub name: String,
    pub value: String,
}

/// A wallet that receives a share, in percent, of what a mint of the collection pays.
#[derive(Debug, PartialEq)]
pub struct Treasury {
    pub wallet: String,
    pub percentage: u8,
    pub name: Option<String>,
}

/// A wallet that receives a share, in percent, of resales.
#[derive(Debug, PartialEq)]
pub struct Royalty {
    pub wallet: String,
    pub percentage: u8,
    pub name: Option<String>,
}

/// A named, symbol-tagged grouping of item templates owned by one address.
#[derive(Clone, Debug, PartialEq)]
pub struct Collection {
    pub owner: Option<String>,
    pub name: String,
    pub symbol: String,
    pub description: Option<String>,
    pub treasuries: Option<Vec<Treasury>>,
    pub attributes: Option<Vec<Attribute>>,
    pub prices: Option<Vec<PriceType>>,
    pub royalties: Option<Vec<Royalty>>,
    pub status: Option<u8>,
    pub date_created: Option<u64>,
    pub date_updated: Option<u64>,
}

/// A link of an item (image, external page, video or animation).
#[derive(Debug, PartialEq)]
pub struct Link {
    pub link_type: u8,
    pub value: String,
}

/// A trait of an item, as it appears in the minted token's metadata.
#[derive(Debug, PartialEq)]
pub struct Trait {
    pub display_type: Option<String>,
    pub trait_type: String,
    pub value: String,
}

/// A staged, not yet minted token template of a collection.
#[derive(Clone, Debug, PartialEq)]
pub struct Item {
    pub collection_owner: String,
    pub collection_name: String,
    pub collection_symbol: String,
    pub name: String,
    pub description: Option<String>,
    pub links: Vec<Link>,
    pub traits: Vec<Trait>,
    pub background_color: Option<String>,
    pub date_created: Option<u64>,
    pub date_updated: Option<u64>,
}

/// A wallet and the share, in percent, of a payment that it receives.
#[derive(Debug, PartialEq)]
pub struct PaymentByPercentage {
    pub wallet: String,
    pub percentage: u8,
}

pub fn clone_opt_string(s: &Option<String>) -> (r: Option<String>)
    ensures
        r == *s,
{
    match s {
        Some(x) => Some(x.clone()),
        None => None,
    }
}

impl Clone for Coin {
    fn clone(&self) -> (r: Self)
        ensures
            r == *self,
    {
        Coin { amount: self.amount, denom: self.denom.clone() }
    }
}

impl Clone for PriceType {
    fn clone(&self) -> (r: Self)
        ensures
            r == *self,
    {
        PriceType {
            price_type: self.price_type,
            value: self.value.clone(),
            date_start: self.date_start,
            date_end: self.date_end,
        }
    }
}

impl Clone for Attribute {
    fn clone(&self) -> (r: Self)
        ensures
            r == *self,
    {
        Attribute { name: self.name.clone(), value: self.value.clone() }
    }
}

impl Clone for Treasury {
    fn clone(&self) -> (r: Self)
        ensures
            r == *self,
    {
        Treasury {
            wallet: self.wallet.clone(),
            percentage: self.percentage,
            name: clone_opt_string(&self.name),
        }
    }
}

impl Clone for Royalty {
    fn clone(&self) -> (r: Self)
        ensures
            r == *self,
    {
        Royalty {
            wallet: self.wallet.clone(),
            percentage: self.percentage,
            name: clone_opt_string(&self.name),
        }
    }
}

impl Clone for Link {
    fn clone(&self) -> (r: Self)
        ensures
            r == *self,
    {
        Link { link_type: self.link_type, value: self.value.clone() }
    }
}

impl Clone for Trait {
    fn clone(&self) -> (r: Self)
        ensures
            r == *self,
    {
        Trait {
            display_type: clone_opt_string(&self.display_type),
            trait_type: self.trait_type.clone(),
            value: self.value.clone(),
        }
    }
}

impl Clone for PaymentByPercentage {
    fn clone(&self) -> (r: Self)
        ensures
            r == *self,
    {
        PaymentByPercentage { wallet: self.wallet.clone(), percentage: self.percentage }
    }
}

/// The contents of an optional list, as a sequence.
pub open spec fn opt_seq<T>(v: Option<Vec<T>>) -> Option<Seq<T>> {
    match v {
        Some(x) => Some(x@),
        None => None,
    }
}

pub fn clone_opt_vec<T: Clone>(v: &Option<Vec<T>>) -> (r: Option<Vec<T>>)
    requires
        forall|a: T, b: T| cloned::<T>(a, b) ==> a == b,
    ensures
        opt_seq(r) == opt_seq(*v),
{
    match v {
        Some(x) => {
            let c = x.clone();
            assert(c@ =~= x@);
            Some(c)
        },
        None => None,
    }
}

impl Collection {
    /// Two collections hold the same values, field by field (lists by their contents).
    pub open spec fn equiv(self, o: Collection) -> bool {
        &&& self.owner == o.owner
        &&& self.name == o.name
        &&& self.symbol == o.symbol
        &&& self.description == o.description
        &&& opt_seq(self.treasuries) == opt_seq(o.treasuries)
        &&& opt_seq(self.attributes) == opt_seq(o.attributes)
        &&& opt_seq(self.prices) == opt_seq(o.prices)
        &&& opt_seq(self.royalties) == opt_seq(o.royalties)
        &&& self.status == o.status
        &&& self.date_created == o.date_created
        &&& self.date_updated == o.date_updated
    }

    /// A copy of this collection.
    pub fn duplicate(&self) -> (r: Collection)
        ensures
            r.equiv(*self),
    {
        Collection {
            owner: clone_opt_string(&self.owner),
            name: self.name.clone(),
            symbol: self.symbol.clone(),
            description: clone_opt_string(&self.description),
            treasuries: clone_opt_vec(&self.treasuries),
            attributes: clone_opt_vec(&self.attributes),
            prices: clone_opt_vec(&self.prices),
            royalties: clone_opt_vec(&self.royalties),
            status: self.status,
            date_created: self.date_created,
            date_updated: self.date_updated,
        }
    }
}

impl Item {
    /// Two items hold the same values, field by field (lists by their contents).
    pub open spec fn equiv(self, o: Item) -> bool {
        &&& self.collection_owner == o.collection_owner
        &&& self.collection_name == o.collection_name
        &&& self.collection_symbol == o.collection_symbol
        &&& self.name == o.name
        &&& self.description == o.description
        &&& self.links@ == o.links@
        &&& self.traits@ == o.traits@
        &&& self.background_color == o.background_color
        &&& self.date_created == o.date_created
        &&& self.date_updated == o.date_updated
    }

    /// A copy of this item.
    pub fn duplicate(&self) -> (r: Item)
        ensures
            r.equiv(*self),
    {
        let links = self.links.clone();
        let traits = self.traits.clone();
        assert(links@ =~= self.links@);
        assert(traits@ =~= self.traits@);
        Item {
            collection_owner: self.collection_owner.clone(),
            collection_name: self.collection_name.clone(),
            collection_symbol: self.collection_symbol.clone(),
            name: self.name.clone(),
            description: clone_opt_string(&self.description),
            links,
            traits,
            background_color: clone_opt_string(&self.background_color),
            date_created: self.date_created,
            date_updated: self.date_updated,
        }
    }
}

/// The first element of `s` that satisfies `p`.
pub open spec fn first_match<A>(s: Seq<A>, p: spec_fn(A) -> bool) -> Option<A>
    decreases s.len(),
{
    if s.len() == 0 {
        None
    } else if p(s[0]) {
        Some(s[0])
    } else {
        first_match(s.drop_first(), p)
    }
}

/// When no element before `i` satisfies `p`, the first match lies in the suffix from `i`.
pub proof fn lemma_first_match_from<A>(s: Seq<A>, p: spec_fn(A) -> bool, i: int)
    requires
        0 <= i <= s.len(),
        forall|j: int| 0 <= j < i ==> !p(#[trigger] s[j]),
    ensures
        first_match(s, p) == first_match(s.subrange(i, s.len() as int), p),
    decreases i,
{
    if i == 0 {
        assert(s.subrange(0, s.len() as int) =~= s);
    } else {
        assert(!p(s[0]));
        let t = s.drop_first();
        assert forall|j: int| 0 <= j < i - 1 implies !p(#[trigger] t[j]) by {
            assert(t[j] == s[j + 1]);
        }
        lemma_first_match_from(t, p, i - 1);
        assert(t.subrange(i - 1, t.len() as int) =~= s.subrange(i, s.len() as int));
    }
}

/// The shares, as (wallet, percent), that a collection pays on a mint: its treasuries,
/// or everything to its owner when it has none.
pub open spec fn treasury_share(t: Treasury) -> (Seq<char>, u8) {
    (t.wallet@, t.percentage)
}

pub open spec fn payment_share(p: PaymentByPercentage) -> (Seq<char>, u8) {
    (p.wallet@, p.percentage)
}

pub open spec fn to_payment(t: Treasury) -> PaymentByPercentage {
    PaymentByPercentage { wallet: t.wallet, percentage: t.percentage }
}

pub open spec fn treasury_shares(s: Seq<Treasury>) -> Seq<(Seq<char>, u8)> {
    s.map_values(|x: Treasury| treasury_share(x))
}

pub open spec fn payment_shares(s: Seq<PaymentByPercentage>) -> Seq<(Seq<char>, u8)> {
    s.map_values(|x: PaymentByPercentage| payment_share(x))
}

pub open spec fn price_of_type(t: u8) -> spec_fn(PriceType) -> bool {
    |x: PriceType| x.price_type == t
}

pub open spec fn attribute_named(name: Seq<char>) -> spec_fn(Attribute) -> bool {
    |x: Attribute| x.name@ == name
}

pub open spec fn link_of_type(t: u8) -> spec_fn(Link) -> bool {
    |l: Link| l.link_type == t
}

impl Collection {
    pub open spec fn spec_shares(self) -> Seq<(Seq<char>, u8)> {
        match self.treasuries {
            Some(t) => treasury_shares(t@),
            None => match self.owner {
                Some(o) => seq![(o@, 100u8)],
                None => seq![(UNKNOWN_WALLET@, 0u8)],
            },
        }
    }

    /// The payment shares of a collection with an owner: its treasuries, or the owner
    /// with 100 percent when it has none.
    pub open spec fn spec_payments(self) -> Seq<PaymentByPercentage> {
        match self.treasuries {
            Some(t) => t@.map_values(|x: Treasury| to_payment(x)),
            None => seq![PaymentByPercentage { wallet: self.owner.unwrap(), percentage: 100u8 }],
        }
    }

    /// The price of the first price entry of the given tier.
    pub open spec fn spec_price_by_type(self, t: u8) -> Option<Coin> {
        match self.prices {
            Some(ps) => match first_match(ps@, price_of_type(t)) {
                Some(p) => Some(p.value),
                None => None,
            },
            None => None,
        }
    }

    /// The first attribute of the given name.
    pub open spec fn spec_attribute(self, name: Seq<char>) -> Option<Attribute> {
        match self.attributes {
            Some(a) => first_match(a@, attribute_named(name)),
            None => None,
        }
    }

    pub open spec fn spec_mint_by_name_allowed(self) -> bool {
        match self.spec_attribute(ATTRB_ALLOWED_MINT_ITEM_BY_NAME@) {
            Some(a) => a.value@ == "true"@,
            None => false,
        }
    }

    pub open spec fn spec_category(self) -> Option<Seq<char>> {
        match self.spec_attribute(ATTRB_CATEGORY@) {
            Some(a) => Some(a.value@),
            None => None,
        }
    }

    /// The wallets that a mint of this collection pays: its treasuries, or its owner
    /// with the whole amount when it has none.
    pub fn treasuries(&self) -> (r: Vec<Treasury>)
        ensures
            treasury_shares(r@) == self.spec_shares(),
            self.treasuries matches Some(t) ==> r@ == t@,
            self.treasuries is None ==> r@.len() == 1 && r@[0].name is None,
            self.treasuries is None && self.owner is Some ==> r@[0].wallet == self.owner.unwrap()
                && r@[0].percentage == 100,
    {
        match &self.treasuries {
            Some(t) => {
                let c = t.clone();
                assert(c@ =~= t@);
                c
            },
            None => {
                let wallet = match &self.owner {
                    Some(o) => o.clone(),
                    None => to_owned_string(UNKNOWN_WALLET),
                };
                let percentage: u8 = if self.owner.is_some() { 100 } else { 0 };
                let r = vec![Treasury { wallet, percentage, name: None }];
                assert(treasury_shares(r@) =~= self.spec_shares());
                r
            },
        }
    }

    /// The treasuries of this collection as (wallet, percent) payment shares.
    pub fn treasuries_to_payments(&self) -> (r: Vec<PaymentByPercentage>)
        ensures
            payment_shares(r@) == self.spec_shares(),
            self.owner is Some || self.treasuries is Some ==> r@ == self.spec_payments(),
    {
        let treas = self.treasuries();
        let mut payments: Vec<PaymentByPercentage> = Vec::new();
        let mut i: usize = 0;
        while i < treas.len()
            invariant
                i <= treas@.len(),
                payments@.len() == i,
                payments@ =~= treas@.subrange(0, i as int).map_values(|x: Treasury| to_payment(x)),
                payment_shares(payments@)
                    =~= treasury_shares(treas@.subrange(0, i as int)),
            decreases treas.len() - i,
        {
            let t = &treas[i];
            let ghost prev = payments@;
            payments.push(PaymentByPercentage { wallet: t.wallet.clone(), percentage: t.percentage });
            assert(payments@ =~= prev.push(payments@[i as int]));
            assert(treas@.subrange(0, i + 1) =~= treas@.subrange(0, i as int).push(treas@[i as int]));
            assert(payment_shares(payments@) =~= payment_shares(prev).push(payment_share(payments@[i as int])));
            assert(treasury_shares(treas@.subrange(0, i + 1)) =~= treasury_shares(treas@.subrange(0, i as int)).push(treasury_share(treas@[i as int])));
            i = i + 1;
        }
        assert(treas@.subrange(0, i as int) =~= treas@);
        proof {
            if self.treasuries is None && self.owner is Some {
                assert(payments@ =~= self.spec_payments());
            }
        }
        payments
    }

    /// The price of the first price entry of tier `t`; `None` when there is none.
    pub fn price_by_type(&self, t: u8) -> (r: Option<Coin>)
        ensures
            r == self.spec_price_by_type(t),
    {
        match &self.prices {
            Some(ps) => {
                let ghost p = price_of_type(t);
                let mut i: usize = 0;
                while i < ps.len()
                    invariant
                        i <= ps@.len(),
                        p == price_of_type(t),
                        self.prices == Some(*ps),
                        forall|j: int| 0 <= j < i ==> !p(#[trigger] ps@[j]),
                    decreases ps.len() - i,
                {
                    if ps[i].price_type == t {
                        proof {
                            lemma_first_match_from(ps@, p, i as int);
                            let sub = ps@.subrange(i as int, ps@.len() as int);
                            assert(sub[0] == ps@[i as int]);
                            assert(p(sub[0]));
                            assert(first_match(sub, p) == Some(ps@[i as int]));
                        }
                        return Some(ps[i].value.clone());
                    }
                    i = i + 1;
                }
                proof {
                    lemma_first_match_from(ps@, p, i as int);
                }
                None
            },
            None => None,
        }
    }

    /// The value of the first attribute named `name`.
    pub fn attribute_value(&self, name: &str) -> (r: Option<String>)
        ensures
            match self.spec_attribute(name@) {
                Some(a) => r matches Some(v) && v@ == a.value@,
                None => r is None,
            },
    {
        match &self.attributes {
            Some(attrs) => {
                let ghost p = attribute_named(name@);
                let mut i: usize = 0;
                while i < attrs.len()
                    invariant
                        i <= attrs@.len(),
                        p == attribute_named(name@),
                        self.attributes == Some(*attrs),
                        forall|j: int| 0 <= j < i ==> !p(#[trigger] attrs@[j]),
                    decreases attrs.len() - i,
                {
                    if str_equals(&attrs[i].name, name) {
                        proof {
                            lemma_first_match_from(attrs@, p, i as int);
                            let sub = attrs@.subrange(i as int, attrs@.len() as int);
                            assert(sub[0] == attrs@[i as int]);
                            assert(p(sub[0]));
                            assert(first_match(sub, p) == Some(attrs@[i as int]));
                        }
                        return Some(attrs[i].value.clone());
                    }
                    i = i + 1;
                }
                proof {
                    lemma_first_match_from(attrs@, p, i as int);
                }
                None
            },
            None => None,
        }
    }

    /// Whether the collection's mint-by-name flag (its first such attribute) is "true".
    pub fn is_mint_by_name_allowed(&self) -> (r: bool)
        ensures
            r == self.spec_mint_by_name_allowed(),
    {
        match self.attribute_value(ATTRB_ALLOWED_MINT_ITEM_BY_NAME) {
            Some(v) => str_equals(&v, "true"),
            None => false,
        }
    }

    /// The collection's category (its first category attribute), if any.
    pub fn category(&self) -> (r: Option<String>)
        ensures
            match self.spec_category() {
                Some(c) => r matches Some(v) && v@ == c,
                None => r is None,
            },
    {
        self.attribute_value(ATTRB_CATEGORY)
    }
}

impl Item {
    pub open spec fn spec_link_value(self, link_type: u8) -> Option<Seq<char>> {
        match first_match(self.links@, link_of_type(link_type)) {
            Some(l) => Some(l.value@),
            None => None,
        }
    }

    /// The links of the given type, in order.
    pub fn link_by_type(&self, link_type: u8) -> (r: Vec<Link>)
        ensures
            r@ == self.links@.filter(link_of_type(link_type)),
    {
        let ghost p = link_of_type(link_type);
        let mut r: Vec<Link> = Vec::new();
        let mut i: usize = 0;
        while i < self.links.len()
            invariant
                i <= self.links@.len(),
                p == link_of_type(link_type),
                r@ == self.links@.subrange(0, i as int).filter(p),
            decreases self.links.len() - i,
        {
            let ghost before = self.links@.subrange(0, i as int);
            assert(self.links@.subrange(0, i + 1) =~= before.push(self.links@[i as int]));
            proof {
                before.lemma_filter_push(self.links@[i as int], p);
            }
            if self.links[i].link_type == link_type {
                r.push(self.links[i].clone());
            }
            i = i + 1;
        }
        assert(self.links@.subrange(0, i as int) =~= self.links@);
        r
    }

    /// The value of the first link of the given type.
    pub fn link_value(&self, link_type: u8) -> (r: Option<String>)
        ensures
            match self.spec_link_value(link_type) {
                Some(v) => r matches Some(x) && x@ == v,
                None => r is None,
            },
    {
        let ghost p = link_of_type(link_type);
        let mut i: usize = 0;
        while i < self.links.len()
            invariant
                i <= self.links@.len(),
                p == link_of_type(link_type),
                forall|j: int| 0 <= j < i ==> !p(#[trigger] self.links@[j]),
            decreases self.links.len() - i,
        {
            if self.links[i].link_type == link_type {
                proof {
                    lemma_first_match_from(self.links@, p, i as int);
                    assert(self.links@.subrange(i as int, self.links@.len() as int)[0] == self.links@[i as int]);
                }
                return Some(self.links[i].value.clone());
            }
            i = i + 1;
        }
        proof {
            lemma_first_match_from(self.links@, p, i as int);
        }
        None
    }

    pub fn image_link(&self) -> (r: Option<String>)
        ensures
            match self.spec_link_value(LINK_TYPE_IMAGE_URL) {
                Some(v) => r matches Some(x) && x@ == v,
                None => r is None,
            },
    {
        self.link_value(LINK_TYPE_IMAGE_URL)
    }

    pub fn video_link(&self) -> (r: Option<String>)
        ensures
            match self.spec_link_value(LINK_TYPE_VIDEO_URL) {
                Some(v) => r matches Some(x) && x@ == v,
                None => r is None,
            },
    {
        self.link_value(LINK_TYPE_VIDEO_URL)
    }

    pub fn animation_link(&self) -> (r: Option<String>)
        ensures
            match self.spec_link_value(LINK_TYPE_ANIMATION_URL) {
                Some(v) => r matches Some(x) && x@ == v,
                None => r is None,
            },
    {
        self.link_value(LINK_TYPE_ANIMATION_URL)
    }

    pub fn external_link(&self) -> (r: Option<String>)
        ensures
            match self.spec_link_value(LINK_TYPE_EXTERNAL_LINK) {
                Some(v) => r matches Some(x) && x@ == v,
                None => r is None,
            },
    {
        self.link_value(LINK_TYPE_EXTERNAL_LINK)
    }

    /// Appends a trait of the given type unless one of that type is already there.
    pub fn add_to_trait_if_not_exist(
        traits: &mut Vec<Trait>,
        trait_type: String,
        display_type: String,
        value: String,
    )
        ensures
            (exists|j: int| 0 <= j < old(traits)@.len() && (#[trigger] old(traits)@[j]).trait_type@
                == trait_type@) ==> final(traits)@ == old(traits)@,
            (forall|j: int| 0 <= j < old(traits)@.len() ==> (#[trigger] old(traits)@[j]).trait_type@
                != trait_type@) ==> final(traits)@ == old(traits)@.push(
                Trait { display_type: Some(display_type), trait_type, value },
            ),
    {
        let mut i: usize = 0;
        while i < traits.len()
            invariant
                i <= traits@.len(),
                forall|j: int| 0 <= j < i ==> (#[trigger] traits@[j]).trait_type@ != trait_type@,
            decreases traits.len() - i,
        {
            if traits[i].trait_type == trait_type {
                return;
            }
            i = i + 1;
        }
        traits.push(Trait { display_type: Some(display_type), trait_type, value });
    }

    /// The item's traits with a "collection-info" trait appended (unless one is already
    /// there), whose value is the serialized collection summary `collection_info`.
    pub fn add_simple_collection_info_to_traits(&self, collection_info: String) -> (r: Vec<Trait>)
        ensures
            (exists|j: int| 0 <= j < self.traits@.len() && (#[trigger] self.traits@[j]).trait_type@
                == COLLECTION_INFO_TRAIT@) ==> r@ == self.traits@,
            (forall|j: int| 0 <= j < self.traits@.len() ==> (#[trigger] self.traits@[j]).trait_type@
                != COLLECTION_INFO_TRAIT@) ==> {
                &&& r@.len() == self.traits@.len() + 1
                &&& r@.drop_last() == self.traits@
                &&& r@.last().trait_type@ == COLLECTION_INFO_TRAIT@
                &&& r@.last().display_type == Some(r@.last().display_type.unwrap())
                &&& r@.last().display_type.unwrap()@ == COLLECTION_INFO_DISPLAY@
                &&& r@.last().value@ == collection_info@
            },
    {
        let mut trs = self.traits.clone();
        assert(trs@ =~= self.traits@);
        Self::add_to_trait_if_not_exist(
            &mut trs,
            to_owned_string(COLLECTION_INFO_TRAIT),
            to_owned_string(COLLECTION_INFO_DISPLAY),
            collection_info,
        );
        proof {
            if trs@.len() == self.traits@.len() + 1 {
                assert(trs@.drop_last() =~= self.traits@);
            }
        }
        trs
    }
}

} // verus!
