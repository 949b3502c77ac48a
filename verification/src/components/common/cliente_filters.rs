//! The client filter form's state.
use vstd::prelude::*;
use crate::components::common::filter_fields::{
    clean_digits, clean_text, parse_u32, spec_clean_digits, spec_clean_text, spec_parse_u32,
};
use crate::text::{is_blank, opt_chars, opt_u32_int, str_blank};

verus! {

/// The filters chosen in the client filter form.
#[derive(Clone, Debug, Default, PartialEq)]
pub struct ClienteFiltersState {
    pub id: Option<u32>,
    pub nome: Option<String>,
    pub cpf: Option<String>,
    pub telefone: Option<String>,
}

/// The filters read from the form's fields: the id as a number, the name trimmed,
/// CPF and phone as their digits; empty fields filter nothing.
pub fn cliente_filters_from_fields(id: &str, nome: String, cpf: String, telefone: String) -> (r:
    ClienteFiltersState)
    ensures
        opt_u32_int(r.id) == spec_parse_u32(id@),
        opt_chars(r.nome) == spec_clean_text(nome@),
        opt_chars(r.cpf) == spec_clean_digits(cpf@),
        opt_chars(r.telefone) == spec_clean_digits(telefone@),
{
    ClienteFiltersState {
        id: parse_u32(id),
        nome: clean_text(nome),
        cpf: clean_digits(cpf),
        telefone: clean_digits(telefone),
    }
}

/// The form shows filters as active when any field holds more than white space.
pub fn has_active_filters(id: &str, nome: &str, cpf: &str, telefone: &str) -> (r: bool)
    ensures
        r == !(is_blank(id@) && is_blank(nome@) && is_blank(cpf@) && is_blank(telefone@)),
{
    !str_blank(id) || !str_blank(nome) || !str_blank(cpf) || !str_blank(telefone)
}

} // verus!
