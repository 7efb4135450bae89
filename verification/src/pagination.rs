//! Pagination: from a page number and a page size to a limit and an offset.

use vstd::prelude::*;
use crate::error::ReportError;

verus! {

/// The page size used when the caller names none.
pub const FETCH_LIMIT_DEFAULT: i64 = 10;

/// The largest page size a caller may ask for.
pub const FETCH_LIMIT_MAX: i64 = 50;

/// The page that a request means. Pages count from one; a request without a
/// page, or with a page below one, means the first page.
pub open spec fn page_number(page: Option<i64>) -> int {
    match page {
        Some(p) => if p >= 1 { p as int } else { 1 },
        None => 1,
    }
}

/// Whether a requested page size is acceptable: absent, or between one and
/// the maximum.
pub open spec fn limit_in_range(limit: Option<i64>) -> bool {
    match limit {
        Some(l) => 1 <= l <= FETCH_LIMIT_MAX,
        None => true,
    }
}

/// The page size that a request means: the one given, or the default.
pub open spec fn page_limit(limit: Option<i64>) -> int {
    match limit {
        Some(l) => l as int,
        None => FETCH_LIMIT_DEFAULT as int,
    }
}

/// The number of rows that come before the requested page.
pub open spec fn page_offset(page: Option<i64>, limit: Option<i64>) -> int {
    page_limit(limit) * (page_number(page) - 1)
}

/// Whether a request can be served: the page size is in range and the offset
/// is a number the store can count to.
pub open spec fn pagination_valid(page: Option<i64>, limit: Option<i64>) -> bool {
    limit_in_range(limit) && page_offset(page, limit) <= i64::MAX
}

/// With a valid page and page size, neither the limit nor the offset is
/// negative.
pub proof fn lemma_window_nonnegative(page: Option<i64>, limit: Option<i64>)
    requires
        pagination_valid(page, limit),
    ensures
        1 <= page_limit(limit),
        0 <= page_offset(page, limit),
{
    let l = page_limit(limit);
    let p = page_number(page);
    assert(l * (p - 1) >= 0) by (nonlinear_arith)
        requires
            l >= 1,
            p >= 1,
    ;
}

/// Computes the limit and the offset for a requested page and page size.
///
/// Fails with `InvalidPagination` exactly when the request cannot be served.
pub fn limit_and_offset(page: Option<i64>, limit: Option<i64>) -> (result: Result<
    (i64, i64),
    ReportError,
>)
    ensures
        match result {
            Ok((l, o)) => pagination_valid(page, limit) && l == page_limit(limit) && o
                == page_offset(page, limit),
            Err(e) => !pagination_valid(page, limit) && e == ReportError::InvalidPagination,
        },
{
    let page_no: i64 = match page {
        Some(p) => if p >= 1 { p } else { 1 },
        None => 1,
    };
    let size: i64 = match limit {
        Some(l) => {
            if l < 1 || l > FETCH_LIMIT_MAX {
                return Err(ReportError::InvalidPagination);
            }
            l
        },
        None => FETCH_LIMIT_DEFAULT,
    };
    match size.checked_mul(page_no - 1) {
        Some(offset) => Ok((size, offset)),
        None => {
            assert(size * (page_no - 1) >= 0) by (nonlinear_arith)
                requires
                    size >= 1,
                    page_no >= 1,
            ;
            Err(ReportError::InvalidPagination)
        },
    }
}

} // verus!
