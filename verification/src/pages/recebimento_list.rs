//! The payment listing.
use vstd::prelude::*;
use crate::components::common::pagination::{page_request, spec_page_limit, spec_page_skip};
use crate::services::caixa_service::RecebimentoListParams;

verus! {

/// The filters of the payment listing; unset ones are not sent.
#[derive(Debug, Clone, Default)]
pub struct RecebimentoFilters {
    pub id: Option<u32>,
    pub funcionario_id: Option<u32>,
    pub cliente_id: Option<u32>,
    pub data_inicio: Option<String>,
    pub data_fim: Option<String>,
}

/// The listing request for `page` (counted from 1) with `limit` items per page and
/// the chosen filters.
pub fn list_params(page: usize, limit: usize, filters: RecebimentoFilters) -> (r: RecebimentoListParams)
    requires
        spec_page_skip(page, limit) <= usize::MAX,
    ensures
        r.skip == spec_page_skip(page, limit),
        r.limit == spec_page_limit(limit),
        r.id == filters.id,
        r.funcionario_id == filters.funcionario_id,
        r.cliente_id == filters.cliente_id,
        r.data_inicio == filters.data_inicio,
        r.data_fim == filters.data_fim,
{
    let (skip, limit) = page_request(page, limit);
    RecebimentoListParams {
        skip,
        limit,
        id: filters.id,
        funcionario_id: filters.funcionario_id,
        cliente_id: filters.cliente_id,
        data_inicio: filters.data_inicio,
        data_fim: filters.data_fim,
    }
}

} // verus!
