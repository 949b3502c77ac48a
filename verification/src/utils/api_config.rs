//! The API's address, timeout and endpoints.
use vstd::prelude::*;
use crate::utils::config::{api_timeout_ms, api_url, opt_view, spec_api_timeout_ms, spec_api_url};

pub mod endpoints;

verus! {

/// The API timeout in milliseconds, from the configured text `raw`.
pub fn timeout_ms(raw: Option<&str>) -> (r: u64)
    ensures
        r == spec_api_timeout_ms(opt_view(raw)),
{
    api_timeout_ms(raw)
}

/// The full URL of `endpoint` under `base_url`, placed under the page's `origin`
/// when it is not absolute.
pub fn url(base_url: &str, endpoint: &str, origin: Option<&str>) -> (r: String)
    ensures
        r@ == spec_api_url(base_url@, endpoint@, opt_view(origin)),
{
    api_url(base_url, endpoint, origin)
}

} // verus!
