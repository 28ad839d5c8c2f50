use vstd::prelude::*;
use crate::state::{Collection, Item};

verus! {

/// The message that accompanies a migration.
#[derive(Debug, PartialEq)]
pub struct MigrateMsg {
    pub message: String,
}

#[derive(Debug, PartialEq)]
pub struct CollectionResponse {
    pub collection: Option<Collection>,
}

#[derive(Debug, PartialEq)]
pub struct CollectionsResponse {
    pub collections: Vec<Collection>,
}

/// A page of matching collections, with the number of all matches and the paging
/// parameters that were asked for.
#[derive(Debug, PartialEq)]
pub struct CollectionsWithParamsResponse {
    pub collections: Vec<Collection>,
    pub total: Option<u32>,
    pub start: Option<u32>,
    pub limit: Option<u32>,
}

impl CollectionsWithParamsResponse {
    pub fn empty_response() -> (r: Self)
        ensures
            r.collections@.len() == 0,
            r.total is None,
            r.start is None,
            r.limit is None,
    {
        CollectionsWithParamsResponse { collections: Vec::new(), total: None, start: None, limit: None }
    }
}

#[derive(Debug, PartialEq)]
pub struct ItemResponse {
    pub item: Option<Item>,
}

#[derive(Debug, PartialEq)]
pub struct ItemsResponse {
    pub items: Vec<Item>,
}

#[derive(Debug, PartialEq)]
pub struct ItemCountResponse {
    pub count: usize,
}

} // verus!
