//! Paging controls, and how a fetched page is cut to size.
use vstd::prelude::*;
use crate::number::{spec_usize_from_str, usize_from_str};

verus! {

pub const MIN_ITEMS_PER_PAGE: usize = 1;

pub const MAX_ITEMS_PER_PAGE: usize = 1000;

/// The page size typed by the user: its number, clamped to `1 ..= 1000`; nothing
/// when the text is not a number.
pub open spec fn spec_items_per_page(value: Seq<char>) -> Option<int> {
    match spec_usize_from_str(value) {
        Ok(n) => Some(if n < MIN_ITEMS_PER_PAGE {
            MIN_ITEMS_PER_PAGE as int
        } else if n > MAX_ITEMS_PER_PAGE {
            MAX_ITEMS_PER_PAGE as int
        } else {
            n
        }),
        Err(_) => None,
    }
}

/// The page size typed by the user (see `spec_items_per_page`).
pub fn items_per_page_from_input(value: &str) -> (r: Option<usize>)
    ensures
        match r {
            Some(n) => spec_items_per_page(value@) == Some(n as int),
            None => spec_items_per_page(value@) is None,
        },
{
    match usize_from_str(value) {
        Ok(n) => Some(
            if n < MIN_ITEMS_PER_PAGE {
                MIN_ITEMS_PER_PAGE
            } else if n > MAX_ITEMS_PER_PAGE {
                MAX_ITEMS_PER_PAGE
            } else {
                n
            },
        ),
        Err(_) => None,
    }
}

/// The page that "previous" leads to: the one before, unless this is the first page
/// or a load is running.
pub fn previous_page(current_page: usize, loading: bool) -> (r: Option<usize>)
    ensures
        r == (if current_page > 1 && !loading {
            Some((current_page - 1) as usize)
        } else {
            None
        }),
{
    if current_page > 1 && !loading {
        Some(current_page - 1)
    } else {
        None
    }
}

/// The page that "next" leads to: the one after, when there is a next page and no
/// load is running.
pub fn next_page(current_page: usize, loading: bool, has_next_page: bool) -> (r: Option<usize>)
    requires
        current_page < usize::MAX,
    ensures
        r == (if !loading && has_next_page {
            Some((current_page + 1) as usize)
        } else {
            None
        }),
{
    if !loading && has_next_page {
        Some(current_page + 1)
    } else {
        None
    }
}

/// The page shown after the last record of the current page was removed: the one
/// before, but never below the first.
pub fn page_after_removal(page: usize) -> (r: usize)
    ensures
        r == (if page > 2 {
            (page - 1) as usize
        } else {
            1usize
        }),
{
    let p = page.saturating_sub(1);
    if p > 1 {
        p
    } else {
        1
    }
}

/// A fetched page cut to size: the first `per_page` items, and whether more came
/// (a listing asks for one item more than it shows, to learn whether a next page exists).
pub fn page_window<T>(items: Vec<T>, per_page: usize) -> (r: (Vec<T>, bool))
    ensures
        r.1 == (items.len() > per_page),
        r.0@ == (if items.len() > per_page {
            items@.take(per_page as int)
        } else {
            items@
        }),
{
    let has_more = items.len() > per_page;
    let mut items = items;
    items.truncate(per_page);
    (items, has_more)
}

/// The page size actually used: at least one item.
pub open spec fn effective_per_page(per_page: usize) -> int {
    if per_page < 1 {
        1
    } else {
        per_page as int
    }
}

/// How many items a listing skips to reach `page` (counted from 1).
pub open spec fn spec_page_skip(page: usize, per_page: usize) -> int {
    (if page >= 1 {
        page - 1
    } else {
        0
    }) * effective_per_page(per_page)
}

/// How many items a listing asks for: one more than it shows, but at most the
/// API's limit of 1000.
pub open spec fn spec_page_limit(per_page: usize) -> int {
    if effective_per_page(per_page) + 1 < 1000 {
        effective_per_page(per_page) + 1
    } else {
        1000
    }
}

/// The largest page a listing may ask the API for.
pub const MAX_API_LIMIT: usize = 1000;

/// The `skip` and `limit` that fetch `page` (counted from 1) with `per_page` items
/// per page, asking for one more item to learn whether a next page exists.
pub fn page_request(page: usize, per_page: usize) -> (r: (usize, usize))
    requires
        spec_page_skip(page, per_page) <= usize::MAX,
    ensures
        r.0 == spec_page_skip(page, per_page),
        r.1 == spec_page_limit(per_page),
{
    let per_page = if per_page < 1 {
        1
    } else {
        per_page
    };
    let skip = page.saturating_sub(1) * per_page;
    let plus_one = per_page.saturating_add(1);
    let limit = if plus_one < MAX_API_LIMIT {
        plus_one
    } else {
        MAX_API_LIMIT
    };
    (skip, limit)
}

/// With fewer than 1000 items per page, a listing asks for one item more than it
/// shows, so a full fetch tells that a next page exists; the API's limit never
/// exceeds 1000.
pub proof fn law_page_limit_detects_next_page(per_page: usize)
    ensures
        spec_page_limit(per_page) <= MAX_API_LIMIT,
        spec_page_limit(per_page) >= 1,
        effective_per_page(per_page) < MAX_API_LIMIT ==> spec_page_limit(per_page)
            == effective_per_page(per_page) + 1,
{
}

} // verus!
