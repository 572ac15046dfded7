use vstd::prelude::*;

use crate::params::Condition;

verus! {

/// The page asked for when a request names none.
pub const DEFAULT_PAGE: u32 = 1;

/// The page size used when a request names none.
pub const DEFAULT_LIMIT: u32 = 10;

/// A page request: which page, how many items per page, an optional sort
/// specification and an optional filter. Absent values fall back to the
/// defaults; values below one are clamped up to one.
#[derive(Debug)]
pub struct PaginationParams {
    pub page: Option<u32>,
    pub limit: Option<u32>,
    pub sort: Option<String>,
    pub filter: Option<Condition>,
    pub custom: Option<String>,
}

/// Result metadata of a page request.
#[derive(Debug, Clone, Copy, PartialEq, Eq, Structural)]
pub struct Pagination {
    pub total_count: u32,
    pub total_pages: u32,
    pub current_page: u32,
    pub items_per_page: u32,
}

} // verus!
