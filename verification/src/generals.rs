//! Small request and response shapes shared across handlers.
use vstd::prelude::*;

verus! {

/// Optional pagination query parameters.
#[derive(Debug, Clone, Copy)]
pub struct PaginationParam {
    pub page: Option<u64>,
    pub per_page: Option<u64>,
}

/// An empty response body.
#[derive(Debug, Clone)]
pub struct Empty {}

/// An author, as selected into list responses.
#[derive(Debug, Clone)]
pub struct AuthorResponse {
    pub id: String,
    pub first_name: String,
    pub last_name: String,
}

/// The page number and page size resolved from the optional query
/// parameters: the page defaults to 1, the page size to 10.
pub fn resolve_pagination(params: &PaginationParam) -> (r: (u64, u64))
    ensures
        r.0 == match params.page {
            Option::Some(p) => p,
            Option::None => 1u64,
        },
        r.1 == match params.per_page {
            Option::Some(p) => p,
            Option::None => 10u64,
        },
{
    let page: u64 = match params.page {
        Option::Some(p) => p,
        Option::None => 1,
    };
    let per_page: u64 = match params.per_page {
        Option::Some(p) => p,
        Option::None => 10,
    };
    (page, per_page)
}

/// The zero-based index handed to the paginator for a 1-based page
/// number.
pub fn page_index(page: u64) -> (r: u64)
    requires
        page >= 1,
    ensures
        r == page - 1,
{
    page - 1
}

} // verus!
