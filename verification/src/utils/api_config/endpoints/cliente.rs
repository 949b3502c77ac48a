//! Endpoints of the `/cliente` resource; `id` is the record's id as text.
use vstd::prelude::*;
use crate::utils::api_config::endpoints::prefixed;

verus! {

pub const LIST: &'static str = "/cliente/";

pub const CREATE: &'static str = "/cliente/";

/// `/cliente/{id}`
pub fn get(id: &str) -> (r: String)
    ensures
        r@ == "/cliente/"@ + id@,
{
    prefixed("/cliente/", id)
}

/// `/cliente/{id}`
pub fn update(id: &str) -> (r: String)
    ensures
        r@ == "/cliente/"@ + id@,
{
    prefixed("/cliente/", id)
}

/// `/cliente/{id}`
pub fn delete(id: &str) -> (r: String)
    ensures
        r@ == "/cliente/"@ + id@,
{
    prefixed("/cliente/", id)
}

} // verus!
