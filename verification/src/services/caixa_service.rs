//! The cash desk (`/caixa`) and payments (`/recebimento`): list queries, the selection
//! request, and the lenient decoding of their records.
use vstd::prelude::*;
use crate::json::{opt_value, option_u32, spec_option_u32, spec_string_or_default, string_or_default, JsonValue};
use crate::number::{decimal, signed_decimal};
use crate::uri::{
    encode_uri_component, lemma_contains_concat,
    append_opt_text, append_opt_u32, endpoint_with_query as with_query_string, opt_text_param,
    opt_u32_param, paging_params, paging_query, views, with_query,
};
use crate::utils::api_config::endpoints::caixa::DASHBOARD;

verus! {

/// Comandas chosen for payment: by id and/or by number; unset lists are not sent.
#[derive(Debug, Clone, Default)]
pub struct CaixaSelecaoComandasRequest {
    pub comanda_ids: Option<Vec<u32>>,
    pub numeros_comandas: Option<Vec<String>>,
}

/// Paging and filters of a payment listing.
#[derive(Debug, Clone, Default, PartialEq)]
pub struct RecebimentoListParams {
    pub skip: usize,
    pub limit: usize,
    pub id: Option<u32>,
    pub funcionario_id: Option<u32>,
    pub cliente_id: Option<u32>,
    pub data_inicio: Option<String>,
    pub data_fim: Option<String>,
}

/// The query parameters of a payment listing: `skip`, `limit`, then each filter that is set.
pub open spec fn recebimento_query(p: RecebimentoListParams) -> Seq<Seq<char>> {
    paging_params(p.skip, p.limit) + opt_u32_param("id"@, p.id) + opt_u32_param(
        "funcionario_id"@,
        p.funcionario_id,
    ) + opt_u32_param("cliente_id"@, p.cliente_id) + opt_text_param(
        "data_inicio"@,
        p.data_inicio,
    ) + opt_text_param("data_fim"@, p.data_fim)
}

/// The payment listing URL path: `base?skip=..&limit=..` followed by the filters that are set.
pub fn recebimento_endpoint_with_query(base: &str, params: &RecebimentoListParams) -> (r: String)
    ensures
        r@ == with_query(base@, recebimento_query(*params)),
{
    let mut query = paging_query(params.skip, params.limit);
    append_opt_u32(&mut query, "id", params.id);
    append_opt_u32(&mut query, "funcionario_id", params.funcionario_id);
    append_opt_u32(&mut query, "cliente_id", params.cliente_id);
    append_opt_text(&mut query, "data_inicio", &params.data_inicio);
    append_opt_text(&mut query, "data_fim", &params.data_fim);
    assert(views(query@) =~= recebimento_query(*params));
    with_query_string(base, query)
}

/// The dashboard URL path with its paging: `/caixa/dashboard?skip=..&limit=..`.
pub fn dashboard_endpoint(skip: usize, limit: usize) -> (r: String)
    ensures
        r@ == with_query(DASHBOARD@, paging_params(skip, limit)),
{
    let query = paging_query(skip, limit);
    with_query_string(DASHBOARD, query)
}

/// The object fields read as a name, in order.
pub open spec fn name_keys() -> Seq<&'static str> {
    seq!["nome", "name", "descricao", "comanda"]
}

/// Decodes a text field of a cash-desk record leniently: objects give their
/// `nome`, `name`, `descricao` or `comanda` (see `spec_string_or_default`).
pub fn deserialize_string_or_default(value: Option<&JsonValue>) -> (r: String)
    ensures
        r@ == spec_string_or_default(opt_value(value), name_keys()),
{
    let keys = ["nome", "name", "descricao", "comanda"];
    assert(keys@ =~= name_keys());
    string_or_default(value, &keys)
}

/// Decodes an id field of a cash-desk record leniently (see `spec_option_u32`).
pub fn deserialize_option_u32(value: Option<&JsonValue>) -> (r: Result<Option<u32>, &'static str>)
    ensures
        match r {
            Ok(Some(n)) => spec_option_u32(opt_value(value)) == Ok::<Option<int>, Seq<char>>(
                Some(n as int),
            ),
            Ok(None) => spec_option_u32(opt_value(value)) == Ok::<Option<int>, Seq<char>>(None),
            Err(m) => spec_option_u32(opt_value(value)) == Err::<Option<int>, Seq<char>>(m@),
        },
{
    option_u32(value)
}

/// The products of a cash-desk comanda: those of its details when the details list
/// any, else the comanda's own.
pub open spec fn spec_produtos<T>(detalhe_produtos: Option<Seq<T>>, proprios: Seq<T>) -> Seq<T> {
    match detalhe_produtos {
        Some(d) => if d.len() > 0 {
            d
        } else {
            proprios
        },
        None => proprios,
    }
}

/// The products of a cash-desk comanda (see `spec_produtos`).
pub fn produtos<T>(detalhe_produtos: Option<Vec<T>>, proprios: Vec<T>) -> (r: Vec<T>)
    ensures
        r@ == spec_produtos(
            match detalhe_produtos {
                Some(d) => Some(d@),
                None => None,
            },
            proprios@,
        ),
{
    match detalhe_produtos {
        Some(d) => if d.len() > 0 {
            d
        } else {
            proprios
        },
        None => proprios,
    }
}

/// A payment listing asks for its page first (`skip`, `limit`), then sends every filter that is set, each as `key=encodeURIComponent(value)`, in the order id, funcionario_id, cliente_id, data_inicio, data_fim, and nothing else.
pub proof fn law_recebimento_query_sends_filters(p: RecebimentoListParams)
    ensures
        recebimento_query(p)[0] == "skip"@ + seq!['='] + encode_uri_component(decimal(p.skip as nat)),
        recebimento_query(p)[1] == "limit"@ + seq!['='] + encode_uri_component(decimal(p.limit as nat)),
        p.id matches Some(v) ==> recebimento_query(p).contains("id"@ + seq!['='] + encode_uri_component(decimal(v as nat))),
        p.funcionario_id matches Some(v) ==> recebimento_query(p).contains("funcionario_id"@ + seq!['='] + encode_uri_component(decimal(v as nat))),
        p.cliente_id matches Some(v) ==> recebimento_query(p).contains("cliente_id"@ + seq!['='] + encode_uri_component(decimal(v as nat))),
        p.data_inicio matches Some(v) ==> recebimento_query(p).contains("data_inicio"@ + seq!['='] + encode_uri_component(v@)),
        p.data_fim matches Some(v) ==> recebimento_query(p).contains("data_fim"@ + seq!['='] + encode_uri_component(v@)),
        recebimento_query(p).len() == 2 + (if p.id is Some { 1int } else { 0int }) + (if p.funcionario_id is Some { 1int } else { 0int }) + (if p.cliente_id is Some { 1int } else { 0int }) + (if p.data_inicio is Some { 1int } else { 0int }) + (if p.data_fim is Some { 1int } else { 0int }),
        p.id is Some && p.funcionario_id is Some && p.cliente_id is Some && p.data_inicio is Some && p.data_fim is Some ==> recebimento_query(p) == seq![
            recebimento_query(p)[0],
            recebimento_query(p)[1],
            "id"@ + seq!['='] + encode_uri_component(decimal(p.id->0 as nat)),
            "funcionario_id"@ + seq!['='] + encode_uri_component(decimal(p.funcionario_id->0 as nat)),
            "cliente_id"@ + seq!['='] + encode_uri_component(decimal(p.cliente_id->0 as nat)),
            "data_inicio"@ + seq!['='] + encode_uri_component(p.data_inicio->0@),
            "data_fim"@ + seq!['='] + encode_uri_component(p.data_fim->0@),
        ],
{
    assert(recebimento_query(p) == (((((paging_params(p.skip, p.limit) + opt_u32_param("id"@, p.id)) + opt_u32_param("funcionario_id"@, p.funcionario_id)) + opt_u32_param("cliente_id"@, p.cliente_id)) + opt_text_param("data_inicio"@, p.data_inicio)) + opt_text_param("data_fim"@, p.data_fim)));
    if let Some(v) = p.id {
        let x = "id"@ + seq!['='] + encode_uri_component(decimal(v as nat));
        assert(opt_u32_param("id"@, p.id)[0] == x);
        lemma_contains_concat(paging_params(p.skip, p.limit), opt_u32_param("id"@, p.id), x);
        lemma_contains_concat((paging_params(p.skip, p.limit) + opt_u32_param("id"@, p.id)), opt_u32_param("funcionario_id"@, p.funcionario_id), x);
        lemma_contains_concat(((paging_params(p.skip, p.limit) + opt_u32_param("id"@, p.id)) + opt_u32_param("funcionario_id"@, p.funcionario_id)), opt_u32_param("cliente_id"@, p.cliente_id), x);
        lemma_contains_concat((((paging_params(p.skip, p.limit) + opt_u32_param("id"@, p.id)) + opt_u32_param("funcionario_id"@, p.funcionario_id)) + opt_u32_param("cliente_id"@, p.cliente_id)), opt_text_param("data_inicio"@, p.data_inicio), x);
        lemma_contains_concat(((((paging_params(p.skip, p.limit) + opt_u32_param("id"@, p.id)) + opt_u32_param("funcionario_id"@, p.funcionario_id)) + opt_u32_param("cliente_id"@, p.cliente_id)) + opt_text_param("data_inicio"@, p.data_inicio)), opt_text_param("data_fim"@, p.data_fim), x);
    }
    if let Some(v) = p.funcionario_id {
        let x = "funcionario_id"@ + seq!['='] + encode_uri_component(decimal(v as nat));
        assert(opt_u32_param("funcionario_id"@, p.funcionario_id)[0] == x);
        lemma_contains_concat((paging_params(p.skip, p.limit) + opt_u32_param("id"@, p.id)), opt_u32_param("funcionario_id"@, p.funcionario_id), x);
        lemma_contains_concat(((paging_params(p.skip, p.limit) + opt_u32_param("id"@, p.id)) + opt_u32_param("funcionario_id"@, p.funcionario_id)), opt_u32_param("cliente_id"@, p.cliente_id), x);
        lemma_contains_concat((((paging_params(p.skip, p.limit) + opt_u32_param("id"@, p.id)) + opt_u32_param("funcionario_id"@, p.funcionario_id)) + opt_u32_param("cliente_id"@, p.cliente_id)), opt_text_param("data_inicio"@, p.data_inicio), x);
        lemma_contains_concat(((((paging_params(p.skip, p.limit) + opt_u32_param("id"@, p.id)) + opt_u32_param("funcionario_id"@, p.funcionario_id)) + opt_u32_param("cliente_id"@, p.cliente_id)) + opt_text_param("data_inicio"@, p.data_inicio)), opt_text_param("data_fim"@, p.data_fim), x);
    }
    if let Some(v) = p.cliente_id {
        let x = "cliente_id"@ + seq!['='] + encode_uri_component(decimal(v as nat));
        assert(opt_u32_param("cliente_id"@, p.cliente_id)[0] == x);
        lemma_contains_concat(((paging_params(p.skip, p.limit) + opt_u32_param("id"@, p.id)) + opt_u32_param("funcionario_id"@, p.funcionario_id)), opt_u32_param("cliente_id"@, p.cliente_id), x);
        lemma_contains_concat((((paging_params(p.skip, p.limit) + opt_u32_param("id"@, p.id)) + opt_u32_param("funcionario_id"@, p.funcionario_id)) + opt_u32_param("cliente_id"@, p.cliente_id)), opt_text_param("data_inicio"@, p.data_inicio), x);
        lemma_contains_concat(((((paging_params(p.skip, p.limit) + opt_u32_param("id"@, p.id)) + opt_u32_param("funcionario_id"@, p.funcionario_id)) + opt_u32_param("cliente_id"@, p.cliente_id)) + opt_text_param("data_inicio"@, p.data_inicio)), opt_text_param("data_fim"@, p.data_fim), x);
    }
    if let Some(v) = p.data_inicio {
        let x = "data_inicio"@ + seq!['='] + encode_uri_component(v@);
        assert(opt_text_param("data_inicio"@, p.data_inicio)[0] == x);
        lemma_contains_concat((((paging_params(p.skip, p.limit) + opt_u32_param("id"@, p.id)) + opt_u32_param("funcionario_id"@, p.funcionario_id)) + opt_u32_param("cliente_id"@, p.cliente_id)), opt_text_param("data_inicio"@, p.data_inicio), x);
        lemma_contains_concat(((((paging_params(p.skip, p.limit) + opt_u32_param("id"@, p.id)) + opt_u32_param("funcionario_id"@, p.funcionario_id)) + opt_u32_param("cliente_id"@, p.cliente_id)) + opt_text_param("data_inicio"@, p.data_inicio)), opt_text_param("data_fim"@, p.data_fim), x);
    }
    if let Some(v) = p.data_fim {
        let x = "data_fim"@ + seq!['='] + encode_uri_component(v@);
        assert(opt_text_param("data_fim"@, p.data_fim)[0] == x);
        lemma_contains_concat(((((paging_params(p.skip, p.limit) + opt_u32_param("id"@, p.id)) + opt_u32_param("funcionario_id"@, p.funcionario_id)) + opt_u32_param("cliente_id"@, p.cliente_id)) + opt_text_param("data_inicio"@, p.data_inicio)), opt_text_param("data_fim"@, p.data_fim), x);
    }
    if p.id is Some && p.funcionario_id is Some && p.cliente_id is Some && p.data_inicio is Some && p.data_fim is Some {
        assert(recebimento_query(p) =~= seq![
            recebimento_query(p)[0],
            recebimento_query(p)[1],
            "id"@ + seq!['='] + encode_uri_component(decimal(p.id->0 as nat)),
            "funcionario_id"@ + seq!['='] + encode_uri_component(decimal(p.funcionario_id->0 as nat)),
            "cliente_id"@ + seq!['='] + encode_uri_component(decimal(p.cliente_id->0 as nat)),
            "data_inicio"@ + seq!['='] + encode_uri_component(p.data_inicio->0@),
            "data_fim"@ + seq!['='] + encode_uri_component(p.data_fim->0@),
        ]);
    }
}

} // verus!
