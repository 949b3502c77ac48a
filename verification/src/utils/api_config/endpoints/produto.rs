//! Endpoints of the `/produto` resource; `id` is the record's id as text.
use vstd::prelude::*;
use crate::utils::api_config::endpoints::prefixed;

verus! {

pub const PUBLIC_LIST: &'static str = "/produtos-publica/";

pub const LIST: &'static str = "/produto/";

pub const CREATE: &'static str = "/produto/";

/// `/produto/{id}`
pub fn get(id: &str) -> (r: String)
    ensures
        r@ == "/produto/"@ + id@,
{
    prefixed("/produto/", id)
}

/// `/produto/{id}`
pub fn update(id: &str) -> (r: String)
    ensures
        r@ == "/produto/"@ + id@,
{
    prefixed("/produto/", id)
}

/// `/produto/{id}`
pub fn delete(id: &str) -> (r: String)
    ensures
        r@ == "/produto/"@ + id@,
{
    prefixed("/produto/", id)
}

} // verus!
