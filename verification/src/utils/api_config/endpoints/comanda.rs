//! Endpoints of the `/comanda` resource; `id` is the record's id as text.
use vstd::prelude::*;
use crate::utils::api_config::endpoints::{path_with_id, prefixed};

verus! {

pub const LIST: &'static str = "/comanda/";

pub const CREATE: &'static str = "/comanda/";

/// `/comanda/{id}`
pub fn get(id: &str) -> (r: String)
    ensures
        r@ == "/comanda/"@ + id@,
{
    prefixed("/comanda/", id)
}

/// `/comanda/{id}`
pub fn update(id: &str) -> (r: String)
    ensures
        r@ == "/comanda/"@ + id@,
{
    prefixed("/comanda/", id)
}

/// `/comanda/{id}`
pub fn delete(id: &str) -> (r: String)
    ensures
        r@ == "/comanda/"@ + id@,
{
    prefixed("/comanda/", id)
}

/// `/comanda/{id}/cancelar`
pub fn cancel(id: &str) -> (r: String)
    ensures
        r@ == "/comanda/"@ + id@ + "/cancelar"@,
{
    path_with_id("/comanda/", id, "/cancelar")
}

/// `/comanda/{id}/produto`
pub fn add_item(id: &str) -> (r: String)
    ensures
        r@ == "/comanda/"@ + id@ + "/produto"@,
{
    path_with_id("/comanda/", id, "/produto")
}

/// `/comanda/{id}/produtos`
pub fn list_items(id: &str) -> (r: String)
    ensures
        r@ == "/comanda/"@ + id@ + "/produtos"@,
{
    path_with_id("/comanda/", id, "/produtos")
}

/// `/comanda/produto/{id}`
pub fn update_item(id: &str) -> (r: String)
    ensures
        r@ == "/comanda/produto/"@ + id@,
{
    prefixed("/comanda/produto/", id)
}

/// `/comanda/produto/{id}`
pub fn remove_item(id: &str) -> (r: String)
    ensures
        r@ == "/comanda/produto/"@ + id@,
{
    prefixed("/comanda/produto/", id)
}

} // verus!
