//! Endpoints of the `/recebimento` resource; `id` is the record's id as text.
use vstd::prelude::*;
use crate::utils::api_config::endpoints::{path_with_id, prefixed};

verus! {

pub const LIST: &'static str = "/recebimento/";

pub const CREATE: &'static str = "/recebimento/";

/// `/recebimento/{id}`
pub fn get(id: &str) -> (r: String)
    ensures
        r@ == "/recebimento/"@ + id@,
{
    prefixed("/recebimento/", id)
}

/// `/recebimento/{id}`
pub fn update(id: &str) -> (r: String)
    ensures
        r@ == "/recebimento/"@ + id@,
{
    prefixed("/recebimento/", id)
}

/// `/recebimento/{id}`
pub fn delete(id: &str) -> (r: String)
    ensures
        r@ == "/recebimento/"@ + id@,
{
    prefixed("/recebimento/", id)
}

/// `/recebimento/{id}/comprovante`
pub fn comprovante(id: &str) -> (r: String)
    ensures
        r@ == "/recebimento/"@ + id@ + "/comprovante"@,
{
    path_with_id("/recebimento/", id, "/comprovante")
}

} // verus!
