//! The API's endpoint paths.
use vstd::prelude::*;
use crate::text::push_str;

pub mod auditoria;
pub mod auth;
pub mod caixa;
pub mod cliente;
pub mod comanda;
pub mod funcionario;
pub mod produto;
pub mod recebimento;

verus! {

/// `prefix`, then the id as text, then `suffix`.
pub fn path_with_id(prefix: &str, id: &str, suffix: &str) -> (r: String)
    ensures
        r@ == prefix@ + id@ + suffix@,
{
    let mut r = String::new();
    push_str(&mut r, prefix);
    push_str(&mut r, id);
    push_str(&mut r, suffix);
    assert(r@ =~= prefix@ + id@ + suffix@);
    r
}

/// `prefix`, then the id as text.
pub fn prefixed(prefix: &str, id: &str) -> (r: String)
    ensures
        r@ == prefix@ + id@,
{
    let mut r = String::new();
    push_str(&mut r, prefix);
    push_str(&mut r, id);
    assert(r@ =~= prefix@ + id@);
    r
}

} // verus!
