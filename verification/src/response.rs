use vstd::prelude::*;

use crate::doc::Doc;
use crate::pagination::Pagination;

verus! {

/// One page of documents together with its pagination metadata.
#[derive(Debug)]
pub struct PaginationResult {
    pub items: Vec<Doc>,
    pub pagination: Pagination,
}

/// How many rows a patch matched (and therefore rewrote).
#[derive(Debug, Clone, Copy, PartialEq, Eq, Structural)]
pub struct UpdateResult {
    pub updated_count: u32,
}

/// How many rows of a bulk upsert were fresh inserts and how many replaced an
/// existing row.
#[derive(Debug, Clone, Copy, PartialEq, Eq, Structural)]
pub struct UpsertResult {
    pub created_count: u32,
    pub updated_count: u32,
}

/// How many rows a delete removed.
#[derive(Debug, Clone, Copy, PartialEq, Eq, Structural)]
pub struct DeleteResult {
    pub deleted_count: u32,
}

} // verus!
