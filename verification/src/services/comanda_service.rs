//! Comandas (`/comanda`): list queries, and the decisions around them.
use vstd::prelude::*;
use crate::constants::comanda_status::{status_code, ComandaStatus};
use crate::json::{opt_value, option_u32, spec_option_u32, spec_string_or_default, string_or_default, JsonValue};
use crate::text::{is_blank, owned, str_blank};
use crate::number::{decimal, signed_decimal};
use crate::uri::{
    encode_uri_component, lemma_contains_concat,
    append_opt_i32, append_opt_text, append_opt_u32, endpoint_with_query as with_query_string,
    opt_i32_param, opt_text_param, opt_u32_param, paging_params, paging_query, views, with_query,
};

verus! {

/// Paging and filters of a comanda listing.
#[derive(Debug, Clone, Default, PartialEq)]
pub struct ComandaListParams {
    pub skip: usize,
    pub limit: usize,
    pub id: Option<u32>,
    pub comanda: Option<String>,
    pub status: Option<i32>,
    pub funcionario_id: Option<String>,
    pub cliente_id: Option<String>,
    pub data_inicio: Option<String>,
    pub data_fim: Option<String>,
}

/// Paging of a comanda's items.
#[derive(Debug, Clone, Default, PartialEq)]
pub struct ComandaItemListParams {
    pub skip: usize,
    pub limit: usize,
}

/// The body that sets a comanda's status.
#[derive(Debug, Clone, Default)]
pub struct ComandaStatusPayload {
    pub status: i32,
}

/// The query parameters of a comanda listing: `skip`, `limit`, then each filter that is set.
pub open spec fn comanda_query(p: ComandaListParams) -> Seq<Seq<char>> {
    paging_params(p.skip, p.limit) + opt_u32_param("id"@, p.id) + opt_text_param(
        "comanda"@,
        p.comanda,
    ) + opt_i32_param("status"@, p.status) + opt_text_param("funcionario_id"@, p.funcionario_id)
        + opt_text_param("cliente_id"@, p.cliente_id) + opt_text_param(
        "data_inicio"@,
        p.data_inicio,
    ) + opt_text_param("data_fim"@, p.data_fim)
}

/// The listing URL path: `base?skip=..&limit=..` followed by the filters that are set.
pub fn comanda_endpoint_with_query(base: &str, params: &ComandaListParams) -> (r: String)
    ensures
        r@ == with_query(base@, comanda_query(*params)),
{
    let mut query = paging_query(params.skip, params.limit);
    append_opt_u32(&mut query, "id", params.id);
    append_opt_text(&mut query, "comanda", &params.comanda);
    append_opt_i32(&mut query, "status", params.status);
    append_opt_text(&mut query, "funcionario_id", &params.funcionario_id);
    append_opt_text(&mut query, "cliente_id", &params.cliente_id);
    append_opt_text(&mut query, "data_inicio", &params.data_inicio);
    append_opt_text(&mut query, "data_fim", &params.data_fim);
    assert(views(query@) =~= comanda_query(*params));
    with_query_string(base, query)
}

/// The item listing URL path: `base?skip=..&limit=..`.
pub fn item_endpoint_with_query(base: &str, params: &ComandaItemListParams) -> (r: String)
    ensures
        r@ == with_query(base@, paging_params(params.skip, params.limit)),
{
    let query = paging_query(params.skip, params.limit);
    with_query_string(base, query)
}

/// The search that finds open comandas with the number `comanda` (the first hundred),
/// or nothing to search for when the number is blank.
pub fn check_in_use_params(comanda: &str) -> (r: Option<ComandaListParams>)
    ensures
        is_blank(comanda@) <==> r is None,
        r matches Some(p) ==> {
            &&& p.skip == 0
            &&& p.limit == 100
            &&& p.comanda matches Some(c) && c@ == comanda@
            &&& p.status == Some(status_code(ComandaStatus::Aberta))
            &&& p.id is None
            &&& p.funcionario_id is None
            &&& p.cliente_id is None
            &&& p.data_inicio is None
            &&& p.data_fim is None
        },
{
    if str_blank(comanda) {
        return None;
    }
    Some(
        ComandaListParams {
            skip: 0,
            limit: 100,
            id: None,
            comanda: Some(owned(comanda)),
            status: Some(ComandaStatus::Aberta.as_i32()),
            funcionario_id: None,
            cliente_id: None,
            data_inicio: None,
            data_fim: None,
        },
    )
}

/// The position of the first comanda (by id) that is not the one being edited
/// (`current_id`); with no current comanda, the first one.
pub fn in_use_index(ids: &[u32], current_id: Option<u32>) -> (r: Option<usize>)
    ensures
        match r {
            Some(i) => i < ids.len() && (current_id matches Some(c) ==> ids@[i as int] != c)
                && forall|k: int|
                0 <= k < i ==> (current_id matches Some(c) && #[trigger] ids@[k] == c),
            None => forall|k: int|
                0 <= k < ids.len() ==> (current_id matches Some(c) && #[trigger] ids@[k] == c),
        },
{
    let mut i: usize = 0;
    while i < ids.len()
        invariant
            i <= ids.len(),
            current_id is None ==> i == 0,
            forall|k: int|
                0 <= k < i ==> (current_id matches Some(c) && #[trigger] ids@[k] == c),
        decreases ids.len() - i,
    {
        match current_id {
            Some(c) => {
                if ids[i] != c {
                    return Some(i);
                }
            },
            None => {
                return Some(i);
            },
        }
        i = i + 1;
    }
    None
}

/// The search that checks whether the comanda `id` is still listed.
pub fn delete_check_params(id: u32) -> (r: ComandaListParams)
    ensures
        r.skip == 0,
        r.limit == 1,
        r.id == Some(id),
        r.comanda is None,
        r.status is None,
        r.funcionario_id is None,
        r.cliente_id is None,
        r.data_inicio is None,
        r.data_fim is None,
{
    ComandaListParams {
        skip: 0,
        limit: 1,
        id: Some(id),
        comanda: None,
        status: None,
        funcionario_id: None,
        cliente_id: None,
        data_inicio: None,
        data_fim: None,
    }
}

/// A failed deletion still counts as done when the check listing no longer holds the
/// comanda `id` (some API versions delete it and answer with an error afterwards).
pub fn deletion_confirmed(listed_ids: &[u32], id: u32) -> (r: bool)
    ensures
        r == forall|k: int| 0 <= k < listed_ids.len() ==> #[trigger] listed_ids@[k] != id,
{
    let mut i: usize = 0;
    while i < listed_ids.len()
        invariant
            i <= listed_ids.len(),
            forall|k: int| 0 <= k < i ==> #[trigger] listed_ids@[k] != id,
        decreases listed_ids.len() - i,
    {
        if listed_ids[i] == id {
            assert(listed_ids@[i as int] == id);
            return false;
        }
        i = i + 1;
    }
    true
}

/// The body that closes a comanda.
pub fn close_payload() -> (r: ComandaStatusPayload)
    ensures
        r.status == status_code(ComandaStatus::Fechada),
{
    ComandaStatusPayload { status: ComandaStatus::Fechada.as_i32() }
}

/// The object fields read as a name, in order.
pub open spec fn name_keys() -> Seq<&'static str> {
    seq!["nome", "name", "descricao"]
}

/// Decodes a text field of a comanda record leniently: objects give their
/// `nome`, `name` or `descricao` (see `spec_string_or_default`).
pub fn deserialize_string_or_default(value: Option<&JsonValue>) -> (r: String)
    ensures
        r@ == spec_string_or_default(opt_value(value), name_keys()),
{
    let keys = ["nome", "name", "descricao"];
    assert(keys@ =~= name_keys());
    string_or_default(value, &keys)
}

/// Decodes an id field of a comanda record leniently (see `spec_option_u32`).
pub fn deserialize_option_u32(value: Option<&JsonValue>) -> (r: Result<Option<u32>, &'static str>)
    ensures
        match r {
            Ok(Some(n)) => spec_option_u32(opt_value(value)) == Ok::<Option<int>, Seq<char>>(
                Some(n as int),
            ),
            Ok(None) => spec_option_u32(opt_value(value)) == Ok::<Option<int>, Seq<char>>(None),
            Err(m) => spec_option_u32(opt_value(value)) == Err::<Option<int>, Seq<char>>(m@),
        },
{
    option_u32(value)
}

/// A comanda listing asks for its page first (`skip`, `limit`), then sends every filter that is set, each as `key=encodeURIComponent(value)`, in the order id, comanda, status, funcionario_id, cliente_id, data_inicio, data_fim, and nothing else.
pub proof fn law_comanda_query_sends_filters(p: ComandaListParams)
    ensures
        comanda_query(p)[0] == "skip"@ + seq!['='] + encode_uri_component(decimal(p.skip as nat)),
        comanda_query(p)[1] == "limit"@ + seq!['='] + encode_uri_component(decimal(p.limit as nat)),
        p.id matches Some(v) ==> comanda_query(p).contains("id"@ + seq!['='] + encode_uri_component(decimal(v as nat))),
        p.comanda matches Some(v) ==> comanda_query(p).contains("comanda"@ + seq!['='] + encode_uri_component(v@)),
        p.status matches Some(v) ==> comanda_query(p).contains("status"@ + seq!['='] + encode_uri_component(signed_decimal(v as int))),
        p.funcionario_id matches Some(v) ==> comanda_query(p).contains("funcionario_id"@ + seq!['='] + encode_uri_component(v@)),
        p.cliente_id matches Some(v) ==> comanda_query(p).contains("cliente_id"@ + seq!['='] + encode_uri_component(v@)),
        p.data_inicio matches Some(v) ==> comanda_query(p).contains("data_inicio"@ + seq!['='] + encode_uri_component(v@)),
        p.data_fim matches Some(v) ==> comanda_query(p).contains("data_fim"@ + seq!['='] + encode_uri_component(v@)),
        comanda_query(p).len() == 2 + (if p.id is Some { 1int } else { 0int }) + (if p.comanda is Some { 1int } else { 0int }) + (if p.status is Some { 1int } else { 0int }) + (if p.funcionario_id is Some { 1int } else { 0int }) + (if p.cliente_id is Some { 1int } else { 0int }) + (if p.data_inicio is Some { 1int } else { 0int }) + (if p.data_fim is Some { 1int } else { 0int }),
        p.id is Some && p.comanda is Some && p.status is Some && p.funcionario_id is Some && p.cliente_id is Some && p.data_inicio is Some && p.data_fim is Some ==> comanda_query(p) == seq![
            comanda_query(p)[0],
            comanda_query(p)[1],
            "id"@ + seq!['='] + encode_uri_component(decimal(p.id->0 as nat)),
            "comanda"@ + seq!['='] + encode_uri_component(p.comanda->0@),
            "status"@ + seq!['='] + encode_uri_component(signed_decimal(p.status->0 as int)),
            "funcionario_id"@ + seq!['='] + encode_uri_component(p.funcionario_id->0@),
            "cliente_id"@ + seq!['='] + encode_uri_component(p.cliente_id->0@),
            "data_inicio"@ + seq!['='] + encode_uri_component(p.data_inicio->0@),
            "data_fim"@ + seq!['='] + encode_uri_component(p.data_fim->0@),
        ],
{
    assert(comanda_query(p) == (((((((paging_params(p.skip, p.limit) + opt_u32_param("id"@, p.id)) + opt_text_param("comanda"@, p.comanda)) + opt_i32_param("status"@, p.status)) + opt_text_param("funcionario_id"@, p.funcionario_id)) + opt_text_param("cliente_id"@, p.cliente_id)) + opt_text_param("data_inicio"@, p.data_inicio)) + opt_text_param("data_fim"@, p.data_fim)));
    if let Some(v) = p.id {
        let x = "id"@ + seq!['='] + encode_uri_component(decimal(v as nat));
        assert(opt_u32_param("id"@, p.id)[0] == x);
        lemma_contains_concat(paging_params(p.skip, p.limit), opt_u32_param("id"@, p.id), x);
        lemma_contains_concat((paging_params(p.skip, p.limit) + opt_u32_param("id"@, p.id)), opt_text_param("comanda"@, p.comanda), x);
        lemma_contains_concat(((paging_params(p.skip, p.limit) + opt_u32_param("id"@, p.id)) + opt_text_param("comanda"@, p.comanda)), opt_i32_param("status"@, p.status), x);
        lemma_contains_concat((((paging_params(p.skip, p.limit) + opt_u32_param("id"@, p.id)) + opt_text_param("comanda"@, p.comanda)) + opt_i32_param("status"@, p.status)), opt_text_param("funcionario_id"@, p.funcionario_id), x);
        lemma_contains_concat(((((paging_params(p.skip, p.limit) + opt_u32_param("id"@, p.id)) + opt_text_param("comanda"@, p.comanda)) + opt_i32_param("status"@, p.status)) + opt_text_param("funcionario_id"@, p.funcionario_id)), opt_text_param("cliente_id"@, p.cliente_id), x);
        lemma_contains_concat((((((paging_params(p.skip, p.limit) + opt_u32_param("id"@, p.id)) + opt_text_param("comanda"@, p.comanda)) + opt_i32_param("status"@, p.status)) + opt_text_param("funcionario_id"@, p.funcionario_id)) + opt_text_param("cliente_id"@, p.cliente_id)), opt_text_param("data_inicio"@, p.data_inicio), x);
        lemma_contains_concat(((((((paging_params(p.skip, p.limit) + opt_u32_param("id"@, p.id)) + opt_text_param("comanda"@, p.comanda)) + opt_i32_param("status"@, p.status)) + opt_text_param("funcionario_id"@, p.funcionario_id)) + opt_text_param("cliente_id"@, p.cliente_id)) + opt_text_param("data_inicio"@, p.data_inicio)), opt_text_param("data_fim"@, p.data_fim), x);
    }
    if let Some(v) = p.comanda {
        let x = "comanda"@ + seq!['='] + encode_uri_component(v@);
        assert(opt_text_param("comanda"@, p.comanda)[0] == x);
        lemma_contains_concat((paging_params(p.skip, p.limit) + opt_u32_param("id"@, p.id)), opt_text_param("comanda"@, p.comanda), x);
        lemma_contains_concat(((paging_params(p.skip, p.limit) + opt_u32_param("id"@, p.id)) + opt_text_param("comanda"@, p.comanda)), opt_i32_param("status"@, p.status), x);
        lemma_contains_concat((((paging_params(p.skip, p.limit) + opt_u32_param("id"@, p.id)) + opt_text_param("comanda"@, p.comanda)) + opt_i32_param("status"@, p.status)), opt_text_param("funcionario_id"@, p.funcionario_id), x);
        lemma_contains_concat(((((paging_params(p.skip, p.limit) + opt_u32_param("id"@, p.id)) + opt_text_param("comanda"@, p.comanda)) + opt_i32_param("status"@, p.status)) + opt_text_param("funcionario_id"@, p.funcionario_id)), opt_text_param("cliente_id"@, p.cliente_id), x);
        lemma_contains_concat((((((paging_params(p.skip, p.limit) + opt_u32_param("id"@, p.id)) + opt_text_param("comanda"@, p.comanda)) + opt_i32_param("status"@, p.status)) + opt_text_param("funcionario_id"@, p.funcionario_id)) + opt_text_param("cliente_id"@, p.cliente_id)), opt_text_param("data_inicio"@, p.data_inicio), x);
        lemma_contains_concat(((((((paging_params(p.skip, p.limit) + opt_u32_param("id"@, p.id)) + opt_text_param("comanda"@, p.comanda)) + opt_i32_param("status"@, p.status)) + opt_text_param("funcionario_id"@, p.funcionario_id)) + opt_text_param("cliente_id"@, p.cliente_id)) + opt_text_param("data_inicio"@, p.data_inicio)), opt_text_param("data_fim"@, p.data_fim), x);
    }
    if let Some(v) = p.status {
        let x = "status"@ + seq!['='] + encode_uri_component(signed_decimal(v as int));
        assert(opt_i32_param("status"@, p.status)[0] == x);
        lemma_contains_concat(((paging_params(p.skip, p.limit) + opt_u32_param("id"@, p.id)) + opt_text_param("comanda"@, p.comanda)), opt_i32_param("status"@, p.status), x);
        lemma_contains_concat((((paging_params(p.skip, p.limit) + opt_u32_param("id"@, p.id)) + opt_text_param("comanda"@, p.comanda)) + opt_i32_param("status"@, p.status)), opt_text_param("funcionario_id"@, p.funcionario_id), x);
        lemma_contains_concat(((((paging_params(p.skip, p.limit) + opt_u32_param("id"@, p.id)) + opt_text_param("comanda"@, p.comanda)) + opt_i32_param("status"@, p.status)) + opt_text_param("funcionario_id"@, p.funcionario_id)), opt_text_param("cliente_id"@, p.cliente_id), x);
        lemma_contains_concat((((((paging_params(p.skip, p.limit) + opt_u32_param("id"@, p.id)) + opt_text_param("comanda"@, p.comanda)) + opt_i32_param("status"@, p.status)) + opt_text_param("funcionario_id"@, p.funcionario_id)) + opt_text_param("cliente_id"@, p.cliente_id)), opt_text_param("data_inicio"@, p.data_inicio), x);
        lemma_contains_concat(((((((paging_params(p.skip, p.limit) + opt_u32_param("id"@, p.id)) + opt_text_param("comanda"@, p.comanda)) + opt_i32_param("status"@, p.status)) + opt_text_param("funcionario_id"@, p.funcionario_id)) + opt_text_param("cliente_id"@, p.cliente_id)) + opt_text_param("data_inicio"@, p.data_inicio)), opt_text_param("data_fim"@, p.data_fim), x);
    }
    if let Some(v) = p.funcionario_id {
        let x = "funcionario_id"@ + seq!['='] + encode_uri_component(v@);
        assert(opt_text_param("funcionario_id"@, p.funcionario_id)[0] == x);
        lemma_contains_concat((((paging_params(p.skip, p.limit) + opt_u32_param("id"@, p.id)) + opt_text_param("comanda"@, p.comanda)) + opt_i32_param("status"@, p.status)), opt_text_param("funcionario_id"@, p.funcionario_id), x);
        lemma_contains_concat(((((paging_params(p.skip, p.limit) + opt_u32_param("id"@, p.id)) + opt_text_param("comanda"@, p.comanda)) + opt_i32_param("status"@, p.status)) + opt_text_param("funcionario_id"@, p.funcionario_id)), opt_text_param("cliente_id"@, p.cliente_id), x);
        lemma_contains_concat((((((paging_params(p.skip, p.limit) + opt_u32_param("id"@, p.id)) + opt_text_param("comanda"@, p.comanda)) + opt_i32_param("status"@, p.status)) + opt_text_param("funcionario_id"@, p.funcionario_id)) + opt_text_param("cliente_id"@, p.cliente_id)), opt_text_param("data_inicio"@, p.data_inicio), x);
        lemma_contains_concat(((((((paging_params(p.skip, p.limit) + opt_u32_param("id"@, p.id)) + opt_text_param("comanda"@, p.comanda)) + opt_i32_param("status"@, p.status)) + opt_text_param("funcionario_id"@, p.funcionario_id)) + opt_text_param("cliente_id"@, p.cliente_id)) + opt_text_param("data_inicio"@, p.data_inicio)), opt_text_param("data_fim"@, p.data_fim), x);
    }
    if let Some(v) = p.cliente_id {
        let x = "cliente_id"@ + seq!['='] + encode_uri_component(v@);
        assert(opt_text_param("cliente_id"@, p.cliente_id)[0] == x);
        lemma_contains_concat(((((paging_params(p.skip, p.limit) + opt_u32_param("id"@, p.id)) + opt_text_param("comanda"@, p.comanda)) + opt_i32_param("status"@, p.status)) + opt_text_param("funcionario_id"@, p.funcionario_id)), opt_text_param("cliente_id"@, p.cliente_id), x);
        lemma_contains_concat((((((paging_params(p.skip, p.limit) + opt_u32_param("id"@, p.id)) + opt_text_param("comanda"@, p.comanda)) + opt_i32_param("status"@, p.status)) + opt_text_param("funcionario_id"@, p.funcionario_id)) + opt_text_param("cliente_id"@, p.cliente_id)), opt_text_param("data_inicio"@, p.data_inicio), x);
        lemma_contains_concat(((((((paging_params(p.skip, p.limit) + opt_u32_param("id"@, p.id)) + opt_text_param("comanda"@, p.comanda)) + opt_i32_param("status"@, p.status)) + opt_text_param("funcionario_id"@, p.funcionario_id)) + opt_text_param("cliente_id"@, p.cliente_id)) + opt_text_param("data_inicio"@, p.data_inicio)), opt_text_param("data_fim"@, p.data_fim), x);
    }
    if let Some(v) = p.data_inicio {
        let x = "data_inicio"@ + seq!['='] + encode_uri_component(v@);
        assert(opt_text_param("data_inicio"@, p.data_inicio)[0] == x);
        lemma_contains_concat((((((paging_params(p.skip, p.limit) + opt_u32_param("id"@, p.id)) + opt_text_param("comanda"@, p.comanda)) + opt_i32_param("status"@, p.status)) + opt_text_param("funcionario_id"@, p.funcionario_id)) + opt_text_param("cliente_id"@, p.cliente_id)), opt_text_param("data_inicio"@, p.data_inicio), x);
        lemma_contains_concat(((((((paging_params(p.skip, p.limit) + opt_u32_param("id"@, p.id)) + opt_text_param("comanda"@, p.comanda)) + opt_i32_param("status"@, p.status)) + opt_text_param("funcionario_id"@, p.funcionario_id)) + opt_text_param("cliente_id"@, p.cliente_id)) + opt_text_param("data_inicio"@, p.data_inicio)), opt_text_param("data_fim"@, p.data_fim), x);
    }
    if let Some(v) = p.data_fim {
        let x = "data_fim"@ + seq!['='] + encode_uri_component(v@);
        assert(opt_text_param("data_fim"@, p.data_fim)[0] == x);
        lemma_contains_concat(((((((paging_params(p.skip, p.limit) + opt_u32_param("id"@, p.id)) + opt_text_param("comanda"@, p.comanda)) + opt_i32_param("status"@, p.status)) + opt_text_param("funcionario_id"@, p.funcionario_id)) + opt_text_param("cliente_id"@, p.cliente_id)) + opt_text_param("data_inicio"@, p.data_inicio)), opt_text_param("data_fim"@, p.data_fim), x);
    }
    if p.id is Some && p.comanda is Some && p.status is Some && p.funcionario_id is Some && p.cliente_id is Some && p.data_inicio is Some && p.data_fim is Some {
        assert(comanda_query(p) =~= seq![
            comanda_query(p)[0],
            comanda_query(p)[1],
            "id"@ + seq!['='] + encode_uri_component(decimal(p.id->0 as nat)),
            "comanda"@ + seq!['='] + encode_uri_component(p.comanda->0@),
            "status"@ + seq!['='] + encode_uri_component(signed_decimal(p.status->0 as int)),
            "funcionario_id"@ + seq!['='] + encode_uri_component(p.funcionario_id->0@),
            "cliente_id"@ + seq!['='] + encode_uri_component(p.cliente_id->0@),
            "data_inicio"@ + seq!['='] + encode_uri_component(p.data_inicio->0@),
            "data_fim"@ + seq!['='] + encode_uri_component(p.data_fim->0@),
        ]);
    }
}

} // verus!
