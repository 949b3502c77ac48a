//! The employee listing.
use vstd::prelude::*;
use crate::components::common::funcionario_filters::FuncionarioFiltersState;
use crate::components::common::pagination::{page_request, spec_page_limit, spec_page_skip};
use crate::services::funcionario_service::FuncionarioListParams;

verus! {

/// The listing request for `page` (counted from 1) with `limit` items per page and
/// the chosen filters.
pub fn list_params(page: usize, limit: usize, filters: FuncionarioFiltersState) -> (r: FuncionarioListParams)
    requires
        spec_page_skip(page, limit) <= usize::MAX,
    ensures
        r.skip == spec_page_skip(page, limit),
        r.limit == spec_page_limit(limit),
        r.id == filters.id,
        r.nome == filters.nome,
        r.matricula == filters.matricula,
        r.cpf == filters.cpf,
        r.grupo == filters.grupo,
        r.telefone == filters.telefone,
{
    let (skip, limit) = page_request(page, limit);
    FuncionarioListParams {
        skip,
        limit,
        id: filters.id,
        nome: filters.nome,
        matricula: filters.matricula,
        cpf: filters.cpf,
        grupo: filters.grupo,
        telefone: filters.telefone,
    }
}

pub open spec fn spec_grupo_label(grupo: i32) -> Seq<char> {
    if grupo == 1 {
        "Admin"@
    } else if grupo == 2 {
        "Balcao"@
    } else if grupo == 3 {
        "Caixa"@
    } else {
        "Outro"@
    }
}

/// The short label of an employee's group in the listing.
pub fn grupo_label(grupo: i32) -> (r: &'static str)
    ensures
        r@ == spec_grupo_label(grupo),
{
    match grupo {
        1 => "Admin",
        2 => "Balcao",
        3 => "Caixa",
        _ => "Outro",
    }
}

} // verus!
