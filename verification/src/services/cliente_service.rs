//! Clients (`/cliente`): records, payloads and list queries.
use vstd::prelude::*;
use crate::services::api::ListResponse;
use crate::number::{decimal, signed_decimal};
use crate::uri::{
    encode_uri_component, lemma_contains_concat,
    append_opt_text, append_opt_u32, endpoint_with_query as with_query_string, opt_text_param,
    opt_u32_param, paging_params, paging_query, views, with_query,
};

verus! {

#[derive(Debug, Clone, Default, PartialEq)]
pub struct Cliente {
    pub id: u32,
    pub nome: String,
    pub cpf: String,
    pub telefone: String,
}

#[derive(Debug, Clone, Default)]
pub struct ClientePayload {
    pub nome: String,
    pub cpf: String,
    pub telefone: String,
}

/// Paging and filters of a client listing.
#[derive(Debug, Clone, Default, PartialEq)]
pub struct ClienteListParams {
    pub skip: usize,
    pub limit: usize,
    pub id: Option<u32>,
    pub nome: Option<String>,
    pub cpf: Option<String>,
    pub telefone: Option<String>,
}

pub type ClienteListResponse = ListResponse<Cliente>;

/// The query parameters of a client listing: `skip`, `limit`, then each filter that is set.
pub open spec fn cliente_query(p: ClienteListParams) -> Seq<Seq<char>> {
    paging_params(p.skip, p.limit) + opt_u32_param("id"@, p.id) + opt_text_param("nome"@, p.nome)
        + opt_text_param("cpf"@, p.cpf) + opt_text_param("telefone"@, p.telefone)
}

/// The listing URL path: `base?skip=..&limit=..` followed by the filters that are set.
pub fn endpoint_with_query(base: &str, params: &ClienteListParams) -> (r: String)
    ensures
        r@ == with_query(base@, cliente_query(*params)),
{
    let mut query = paging_query(params.skip, params.limit);
    append_opt_u32(&mut query, "id", params.id);
    append_opt_text(&mut query, "nome", &params.nome);
    append_opt_text(&mut query, "cpf", &params.cpf);
    append_opt_text(&mut query, "telefone", &params.telefone);
    assert(views(query@) =~= cliente_query(*params));
    with_query_string(base, query)
}

/// A client listing asks for its page first (`skip`, `limit`), then sends every filter that is set, each as `key=encodeURIComponent(value)`, in the order id, nome, cpf, telefone, and nothing else.
pub proof fn law_cliente_query_sends_filters(p: ClienteListParams)
    ensures
        cliente_query(p)[0] == "skip"@ + seq!['='] + encode_uri_component(decimal(p.skip as nat)),
        cliente_query(p)[1] == "limit"@ + seq!['='] + encode_uri_component(decimal(p.limit as nat)),
        p.id matches Some(v) ==> cliente_query(p).contains("id"@ + seq!['='] + encode_uri_component(decimal(v as nat))),
        p.nome matches Some(v) ==> cliente_query(p).contains("nome"@ + seq!['='] + encode_uri_component(v@)),
        p.cpf matches Some(v) ==> cliente_query(p).contains("cpf"@ + seq!['='] + encode_uri_component(v@)),
        p.telefone matches Some(v) ==> cliente_query(p).contains("telefone"@ + seq!['='] + encode_uri_component(v@)),
        cliente_query(p).len() == 2 + (if p.id is Some { 1int } else { 0int }) + (if p.nome is Some { 1int } else { 0int }) + (if p.cpf is Some { 1int } else { 0int }) + (if p.telefone is Some { 1int } else { 0int }),
        p.id is Some && p.nome is Some && p.cpf is Some && p.telefone is Some ==> cliente_query(p) == seq![
            cliente_query(p)[0],
            cliente_query(p)[1],
            "id"@ + seq!['='] + encode_uri_component(decimal(p.id->0 as nat)),
            "nome"@ + seq!['='] + encode_uri_component(p.nome->0@),
            "cpf"@ + seq!['='] + encode_uri_component(p.cpf->0@),
            "telefone"@ + seq!['='] + encode_uri_component(p.telefone->0@),
        ],
{
    assert(cliente_query(p) == ((((paging_params(p.skip, p.limit) + opt_u32_param("id"@, p.id)) + opt_text_param("nome"@, p.nome)) + opt_text_param("cpf"@, p.cpf)) + opt_text_param("telefone"@, p.telefone)));
    if let Some(v) = p.id {
        let x = "id"@ + seq!['='] + encode_uri_component(decimal(v as nat));
        assert(opt_u32_param("id"@, p.id)[0] == x);
        lemma_contains_concat(paging_params(p.skip, p.limit), opt_u32_param("id"@, p.id), x);
        lemma_contains_concat((paging_params(p.skip, p.limit) + opt_u32_param("id"@, p.id)), opt_text_param("nome"@, p.nome), x);
        lemma_contains_concat(((paging_params(p.skip, p.limit) + opt_u32_param("id"@, p.id)) + opt_text_param("nome"@, p.nome)), opt_text_param("cpf"@, p.cpf), x);
        lemma_contains_concat((((paging_params(p.skip, p.limit) + opt_u32_param("id"@, p.id)) + opt_text_param("nome"@, p.nome)) + opt_text_param("cpf"@, p.cpf)), opt_text_param("telefone"@, p.telefone), x);
    }
    if let Some(v) = p.nome {
        let x = "nome"@ + seq!['='] + encode_uri_component(v@);
        assert(opt_text_param("nome"@, p.nome)[0] == x);
        lemma_contains_concat((paging_params(p.skip, p.limit) + opt_u32_param("id"@, p.id)), opt_text_param("nome"@, p.nome), x);
        lemma_contains_concat(((paging_params(p.skip, p.limit) + opt_u32_param("id"@, p.id)) + opt_text_param("nome"@, p.nome)), opt_text_param("cpf"@, p.cpf), x);
        lemma_contains_concat((((paging_params(p.skip, p.limit) + opt_u32_param("id"@, p.id)) + opt_text_param("nome"@, p.nome)) + opt_text_param("cpf"@, p.cpf)), opt_text_param("telefone"@, p.telefone), x);
    }
    if let Some(v) = p.cpf {
        let x = "cpf"@ + seq!['='] + encode_uri_component(v@);
        assert(opt_text_param("cpf"@, p.cpf)[0] == x);
        lemma_contains_concat(((paging_params(p.skip, p.limit) + opt_u32_param("id"@, p.id)) + opt_text_param("nome"@, p.nome)), opt_text_param("cpf"@, p.cpf), x);
        lemma_contains_concat((((paging_params(p.skip, p.limit) + opt_u32_param("id"@, p.id)) + opt_text_param("nome"@, p.nome)) + opt_text_param("cpf"@, p.cpf)), opt_text_param("telefone"@, p.telefone), x);
    }
    if let Some(v) = p.telefone {
        let x = "telefone"@ + seq!['='] + encode_uri_component(v@);
        assert(opt_text_param("telefone"@, p.telefone)[0] == x);
        lemma_contains_concat((((paging_params(p.skip, p.limit) + opt_u32_param("id"@, p.id)) + opt_text_param("nome"@, p.nome)) + opt_text_param("cpf"@, p.cpf)), opt_text_param("telefone"@, p.telefone), x);
    }
    if p.id is Some && p.nome is Some && p.cpf is Some && p.telefone is Some {
        assert(cliente_query(p) =~= seq![
            cliente_query(p)[0],
            cliente_query(p)[1],
            "id"@ + seq!['='] + encode_uri_component(decimal(p.id->0 as nat)),
            "nome"@ + seq!['='] + encode_uri_component(p.nome->0@),
            "cpf"@ + seq!['='] + encode_uri_component(p.cpf->0@),
            "telefone"@ + seq!['='] + encode_uri_component(p.telefone->0@),
        ]);
    }
}

} // verus!
