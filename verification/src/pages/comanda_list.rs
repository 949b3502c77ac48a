//! The comanda listing.
use vstd::prelude::*;
use crate::components::common::comanda_filters::ComandaFiltersState;
use crate::components::common::pagination::{page_request, spec_page_limit, spec_page_skip};
use crate::services::comanda_service::ComandaListParams;

verus! {

/// The listing request for `page` (counted from 1) with `limit` items per page and
/// the chosen filters.
pub fn list_params(page: usize, limit: usize, filters: ComandaFiltersState) -> (r: ComandaListParams)
    requires
        spec_page_skip(page, limit) <= usize::MAX,
    ensures
        r.skip == spec_page_skip(page, limit),
        r.limit == spec_page_limit(limit),
        r.id == filters.id,
        r.comanda == filters.comanda,
        r.status == filters.status,
        r.funcionario_id == filters.funcionario_id,
        r.cliente_id == filters.cliente_id,
        r.data_inicio == filters.data_inicio,
        r.data_fim == filters.data_fim,
{
    let (skip, limit) = page_request(page, limit);
    ComandaListParams {
        skip,
        limit,
        id: filters.id,
        comanda: filters.comanda,
        status: filters.status,
        funcionario_id: filters.funcionario_id,
        cliente_id: filters.cliente_id,
        data_inicio: filters.data_inicio,
        data_fim: filters.data_fim,
    }
}

} // verus!
