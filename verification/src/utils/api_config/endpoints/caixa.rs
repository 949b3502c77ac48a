use vstd::prelude::*;

verus! {

pub const DASHBOARD: &'static str = "/caixa/dashboard";

pub const SELECIONAR_COMANDAS: &'static str = "/caixa/comandas/selecionar";

} // verus!
