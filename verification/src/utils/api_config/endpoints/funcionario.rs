//! Endpoints of the `/funcionario` resource; `id` is the record's id as text.
use vstd::prelude::*;
use crate::utils::api_config::endpoints::prefixed;

verus! {

pub const LIST: &'static str = "/funcionario/";

pub const CREATE: &'static str = "/funcionario/";

/// `/funcionario/{id}`
pub fn get(id: &str) -> (r: String)
    ensures
        r@ == "/funcionario/"@ + id@,
{
    prefixed("/funcionario/", id)
}

/// `/funcionario/{id}`
pub fn update(id: &str) -> (r: String)
    ensures
        r@ == "/funcionario/"@ + id@,
{
    prefixed("/funcionario/", id)
}

/// `/funcionario/{id}`
pub fn delete(id: &str) -> (r: String)
    ensures
        r@ == "/funcionario/"@ + id@,
{
    prefixed("/funcionario/", id)
}

} // verus!
