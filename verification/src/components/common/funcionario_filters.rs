//! The employee filter form's state.
use vstd::prelude::*;

verus! {

/// The filters chosen in the employee filter form.
#[derive(Clone, Debug, Default, PartialEq)]
pub struct FuncionarioFiltersState {
    pub id: Option<u32>,
    pub nome: Option<String>,
    pub matricula: Option<String>,
    pub cpf: Option<String>,
    pub grupo: Option<String>,
    pub telefone: Option<String>,
}

} // verus!
