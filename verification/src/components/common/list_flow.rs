//! The steps of a paged listing: what a fetched page shows, which answers still
//! count, what follows a deletion and which confirmation acts on which record.
use vstd::prelude::*;
use crate::components::common::pagination::{effective_per_page, page_window};
use crate::text::str_eq;

verus! {

/// What a listing does with a fetched page.
#[derive(Debug)]
pub enum PageStep<T> {
    /// The page came back empty: go to the page before.
    GoBack(usize),
    /// Show these items; the flag tells whether a next page exists.
    Show(Vec<T>, bool),
}

/// The items a page shows: at most `per_page` (at least one) of those fetched.
pub open spec fn page_items<T>(fetched: Seq<T>, per_page: usize) -> Seq<T> {
    if fetched.len() > effective_per_page(per_page) {
        fetched.take(effective_per_page(per_page))
    } else {
        fetched
    }
}

/// A fetched page (asked with one item more than it shows): when nothing is left on
/// a page after the first, go back one page; else show the first `per_page` items
/// and whether more came.
pub fn apply_page<T>(page: usize, per_page: usize, fetched: Vec<T>) -> (r: PageStep<T>)
    ensures
        match r {
            PageStep::GoBack(p) => fetched.len() == 0 && page > 1 && p == page - 1,
            PageStep::Show(items, more) => !(fetched.len() == 0 && page > 1) && items@ == page_items(
                fetched@,
                per_page,
            ) && more == (fetched.len() > effective_per_page(per_page)),
        },
{
    let n = if per_page < 1 {
        1
    } else {
        per_page
    };
    if fetched.len() == 0 && page > 1 {
        return PageStep::GoBack(page - 1);
    }
    let (items, more) = page_window(fetched, n);
    PageStep::Show(items, more)
}

/// The number of the next request of a listing (wrapping around).
pub fn next_request(version: usize) -> (r: usize)
    ensures
        r == (if version == usize::MAX {
            0
        } else {
            version + 1
        }),
{
    if version == usize::MAX {
        0
    } else {
        version + 1
    }
}

/// An answer counts only when no newer request was issued since: its request
/// number is the latest one.
pub fn accept_response(issued: usize, latest: usize) -> (r: bool)
    ensures
        r == (issued == latest),
{
    issued == latest
}

/// What a listing does after a deletion was confirmed and sent.
#[derive(Clone, Copy, Debug, PartialEq, Eq, Structural)]
pub enum DeleteStep {
    /// The deletion failed: show the error, change nothing.
    Failed,
    /// The last record of a page after the first went: show the page before.
    PreviousPage(usize),
    /// Load the current page again.
    Refresh,
}

/// The step after a deletion answered `ok`, with `rows_on_page` records shown on
/// `page`.
pub fn after_delete(ok: bool, rows_on_page: usize, page: usize) -> (r: DeleteStep)
    ensures
        r == (if !ok {
            DeleteStep::Failed
        } else if rows_on_page <= 1 && page > 1 {
            DeleteStep::PreviousPage((page - 1) as usize)
        } else {
            DeleteStep::Refresh
        }),
{
    if !ok {
        DeleteStep::Failed
    } else if rows_on_page <= 1 && page > 1 {
        DeleteStep::PreviousPage(page - 1)
    } else {
        DeleteStep::Refresh
    }
}

/// A confirmation event `action` for the action `expected`: it takes the pending
/// record (which is then no longer pending) and acts on it; other events leave the
/// pending record alone. Returns the pending record after the event and the record
/// to act on.
pub fn on_confirm<T>(action: &str, expected: &str, pending: Option<T>) -> (r: (Option<T>, Option<T>))
    ensures
        action@ == expected@ ==> r.0 is None && r.1 == pending,
        action@ != expected@ ==> r.0 == pending && r.1 is None,
{
    if str_eq(action, expected) {
        (None, pending)
    } else {
        (pending, None)
    }
}

/// A page shows the first fetched items, never more than its size (at least one),
/// and all of them when fewer came.
pub proof fn law_page_items<T>(fetched: Seq<T>, per_page: usize)
    ensures
        page_items(fetched, per_page).len() <= effective_per_page(per_page),
        page_items(fetched, per_page) == fetched.take(page_items(fetched, per_page).len() as int),
        fetched.len() <= effective_per_page(per_page) ==> page_items(fetched, per_page) == fetched,
        fetched.len() >= effective_per_page(per_page) ==> page_items(fetched, per_page).len()
            == effective_per_page(per_page),
{
    assert(fetched.take(fetched.len() as int) =~= fetched);
}

} // verus!
