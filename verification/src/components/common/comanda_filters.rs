//! The comanda filter form's state.
use vstd::prelude::*;

verus! {

/// The filters chosen in the comanda filter form.
#[derive(Clone, Debug, Default, PartialEq)]
pub struct ComandaFiltersState {
    pub id: Option<u32>,
    pub comanda: Option<String>,
    pub status: Option<i32>,
    pub funcionario_id: Option<String>,
    pub cliente_id: Option<String>,
    pub data_inicio: Option<String>,
    pub data_fim: Option<String>,
}

} // verus!
