//! Employees (`/funcionario`): records, payloads and list queries.
use vstd::prelude::*;
use crate::services::api::ListResponse;
use crate::number::{decimal, signed_decimal};
use crate::uri::{
    encode_uri_component, lemma_contains_concat,
    append_opt_text, append_opt_u32, endpoint_with_query as with_query_string, opt_text_param,
    opt_u32_param, paging_params, paging_query, views, with_query,
};

verus! {

#[derive(Debug, Clone, Default, PartialEq)]
pub struct Funcionario {
    pub id: u32,
    pub nome: String,
    pub matricula: String,
    pub cpf: String,
    pub telefone: String,
    pub grupo: i32,
}

#[derive(Debug, Clone, Default)]
pub struct FuncionarioCreatePayload {
    pub nome: String,
    pub matricula: String,
    pub cpf: String,
    pub telefone: String,
    pub grupo: i32,
    pub senha: String,
}

/// An update: only the fields that are set are sent.
#[derive(Debug, Clone, Default)]
pub struct FuncionarioUpdatePayload {
    pub nome: Option<String>,
    pub matricula: Option<String>,
    pub cpf: Option<String>,
    pub telefone: Option<String>,
    pub grupo: Option<i32>,
    pub senha: Option<String>,
}

/// Paging and filters of an employee listing.
#[derive(Debug, Clone, Default, PartialEq)]
pub struct FuncionarioListParams {
    pub skip: usize,
    pub limit: usize,
    pub id: Option<u32>,
    pub nome: Option<String>,
    pub matricula: Option<String>,
    pub cpf: Option<String>,
    pub grupo: Option<String>,
    pub telefone: Option<String>,
}

pub type FuncionarioListResponse = ListResponse<Funcionario>;

/// The query parameters of an employee listing: `skip`, `limit`, then each filter that is set.
pub open spec fn funcionario_query(p: FuncionarioListParams) -> Seq<Seq<char>> {
    paging_params(p.skip, p.limit) + opt_u32_param("id"@, p.id) + opt_text_param("nome"@, p.nome)
        + opt_text_param("matricula"@, p.matricula) + opt_text_param("cpf"@, p.cpf)
        + opt_text_param("grupo"@, p.grupo) + opt_text_param("telefone"@, p.telefone)
}

/// The listing URL path: `base?skip=..&limit=..` followed by the filters that are set.
pub fn endpoint_with_query(base: &str, params: &FuncionarioListParams) -> (r: String)
    ensures
        r@ == with_query(base@, funcionario_query(*params)),
{
    let mut query = paging_query(params.skip, params.limit);
    append_opt_u32(&mut query, "id", params.id);
    append_opt_text(&mut query, "nome", &params.nome);
    append_opt_text(&mut query, "matricula", &params.matricula);
    append_opt_text(&mut query, "cpf", &params.cpf);
    append_opt_text(&mut query, "grupo", &params.grupo);
    append_opt_text(&mut query, "telefone", &params.telefone);
    assert(views(query@) =~= funcionario_query(*params));
    with_query_string(base, query)
}

/// An employee listing asks for its page first (`skip`, `limit`), then sends every filter that is set, each as `key=encodeURIComponent(value)`, in the order id, nome, matricula, cpf, grupo, telefone, and nothing else.
pub proof fn law_funcionario_query_sends_filters(p: FuncionarioListParams)
    ensures
        funcionario_query(p)[0] == "skip"@ + seq!['='] + encode_uri_component(decimal(p.skip as nat)),
        funcionario_query(p)[1] == "limit"@ + seq!['='] + encode_uri_component(decimal(p.limit as nat)),
        p.id matches Some(v) ==> funcionario_query(p).contains("id"@ + seq!['='] + encode_uri_component(decimal(v as nat))),
        p.nome matches Some(v) ==> funcionario_query(p).contains("nome"@ + seq!['='] + encode_uri_component(v@)),
        p.matricula matches Some(v) ==> funcionario_query(p).contains("matricula"@ + seq!['='] + encode_uri_component(v@)),
        p.cpf matches Some(v) ==> funcionario_query(p).contains("cpf"@ + seq!['='] + encode_uri_component(v@)),
        p.grupo matches Some(v) ==> funcionario_query(p).contains("grupo"@ + seq!['='] + encode_uri_component(v@)),
        p.telefone matches Some(v) ==> funcionario_query(p).contains("telefone"@ + seq!['='] + encode_uri_component(v@)),
        funcionario_query(p).len() == 2 + (if p.id is Some { 1int } else { 0int }) + (if p.nome is Some { 1int } else { 0int }) + (if p.matricula is Some { 1int } else { 0int }) + (if p.cpf is Some { 1int } else { 0int }) + (if p.grupo is Some { 1int } else { 0int }) + (if p.telefone is Some { 1int } else { 0int }),
        p.id is Some && p.nome is Some && p.matricula is Some && p.cpf is Some && p.grupo is Some && p.telefone is Some ==> funcionario_query(p) == seq![
            funcionario_query(p)[0],
            funcionario_query(p)[1],
            "id"@ + seq!['='] + encode_uri_component(decimal(p.id->0 as nat)),
            "nome"@ + seq!['='] + encode_uri_component(p.nome->0@),
            "matricula"@ + seq!['='] + encode_uri_component(p.matricula->0@),
            "cpf"@ + seq!['='] + encode_uri_component(p.cpf->0@),
            "grupo"@ + seq!['='] + encode_uri_component(p.grupo->0@),
            "telefone"@ + seq!['='] + encode_uri_component(p.telefone->0@),
        ],
{
    assert(funcionario_query(p) == ((((((paging_params(p.skip, p.limit) + opt_u32_param("id"@, p.id)) + opt_text_param("nome"@, p.nome)) + opt_text_param("matricula"@, p.matricula)) + opt_text_param("cpf"@, p.cpf)) + opt_text_param("grupo"@, p.grupo)) + opt_text_param("telefone"@, p.telefone)));
    if let Some(v) = p.id {
        let x = "id"@ + seq!['='] + encode_uri_component(decimal(v as nat));
        assert(opt_u32_param("id"@, p.id)[0] == x);
        lemma_contains_concat(paging_params(p.skip, p.limit), opt_u32_param("id"@, p.id), x);
        lemma_contains_concat((paging_params(p.skip, p.limit) + opt_u32_param("id"@, p.id)), opt_text_param("nome"@, p.nome), x);
        lemma_contains_concat(((paging_params(p.skip, p.limit) + opt_u32_param("id"@, p.id)) + opt_text_param("nome"@, p.nome)), opt_text_param("matricula"@, p.matricula), x);
        lemma_contains_concat((((paging_params(p.skip, p.limit) + opt_u32_param("id"@, p.id)) + opt_text_param("nome"@, p.nome)) + opt_text_param("matricula"@, p.matricula)), opt_text_param("cpf"@, p.cpf), x);
        lemma_contains_concat(((((paging_params(p.skip, p.limit) + opt_u32_param("id"@, p.id)) + opt_text_param("nome"@, p.nome)) + opt_text_param("matricula"@, p.matricula)) + opt_text_param("cpf"@, p.cpf)), opt_text_param("grupo"@, p.grupo), x);
        lemma_contains_concat((((((paging_params(p.skip, p.limit) + opt_u32_param("id"@, p.id)) + opt_text_param("nome"@, p.nome)) + opt_text_param("matricula"@, p.matricula)) + opt_text_param("cpf"@, p.cpf)) + opt_text_param("grupo"@, p.grupo)), opt_text_param("telefone"@, p.telefone), x);
    }
    if let Some(v) = p.nome {
        let x = "nome"@ + seq!['='] + encode_uri_component(v@);
        assert(opt_text_param("nome"@, p.nome)[0] == x);
        lemma_contains_concat((paging_params(p.skip, p.limit) + opt_u32_param("id"@, p.id)), opt_text_param("nome"@, p.nome), x);
        lemma_contains_concat(((paging_params(p.skip, p.limit) + opt_u32_param("id"@, p.id)) + opt_text_param("nome"@, p.nome)), opt_text_param("matricula"@, p.matricula), x);
        lemma_contains_concat((((paging_params(p.skip, p.limit) + opt_u32_param("id"@, p.id)) + opt_text_param("nome"@, p.nome)) + opt_text_param("matricula"@, p.matricula)), opt_text_param("cpf"@, p.cpf), x);
        lemma_contains_concat(((((paging_params(p.skip, p.limit) + opt_u32_param("id"@, p.id)) + opt_text_param("nome"@, p.nome)) + opt_text_param("matricula"@, p.matricula)) + opt_text_param("cpf"@, p.cpf)), opt_text_param("grupo"@, p.grupo), x);
        lemma_contains_concat((((((paging_params(p.skip, p.limit) + opt_u32_param("id"@, p.id)) + opt_text_param("nome"@, p.nome)) + opt_text_param("matricula"@, p.matricula)) + opt_text_param("cpf"@, p.cpf)) + opt_text_param("grupo"@, p.grupo)), opt_text_param("telefone"@, p.telefone), x);
    }
    if let Some(v) = p.matricula {
        let x = "matricula"@ + seq!['='] + encode_uri_component(v@);
        assert(opt_text_param("matricula"@, p.matricula)[0] == x);
        lemma_contains_concat(((paging_params(p.skip, p.limit) + opt_u32_param("id"@, p.id)) + opt_text_param("nome"@, p.nome)), opt_text_param("matricula"@, p.matricula), x);
        lemma_contains_concat((((paging_params(p.skip, p.limit) + opt_u32_param("id"@, p.id)) + opt_text_param("nome"@, p.nome)) + opt_text_param("matricula"@, p.matricula)), opt_text_param("cpf"@, p.cpf), x);
        lemma_contains_concat(((((paging_params(p.skip, p.limit) + opt_u32_param("id"@, p.id)) + opt_text_param("nome"@, p.nome)) + opt_text_param("matricula"@, p.matricula)) + opt_text_param("cpf"@, p.cpf)), opt_text_param("grupo"@, p.grupo), x);
        lemma_contains_concat((((((paging_params(p.skip, p.limit) + opt_u32_param("id"@, p.id)) + opt_text_param("nome"@, p.nome)) + opt_text_param("matricula"@, p.matricula)) + opt_text_param("cpf"@, p.cpf)) + opt_text_param("grupo"@, p.grupo)), opt_text_param("telefone"@, p.telefone), x);
    }
    if let Some(v) = p.cpf {
        let x = "cpf"@ + seq!['='] + encode_uri_component(v@);
        assert(opt_text_param("cpf"@, p.cpf)[0] == x);
        lemma_contains_concat((((paging_params(p.skip, p.limit) + opt_u32_param("id"@, p.id)) + opt_text_param("nome"@, p.nome)) + opt_text_param("matricula"@, p.matricula)), opt_text_param("cpf"@, p.cpf), x);
        lemma_contains_concat(((((paging_params(p.skip, p.limit) + opt_u32_param("id"@, p.id)) + opt_text_param("nome"@, p.nome)) + opt_text_param("matricula"@, p.matricula)) + opt_text_param("cpf"@, p.cpf)), opt_text_param("grupo"@, p.grupo), x);
        lemma_contains_concat((((((paging_params(p.skip, p.limit) + opt_u32_param("id"@, p.id)) + opt_text_param("nome"@, p.nome)) + opt_text_param("matricula"@, p.matricula)) + opt_text_param("cpf"@, p.cpf)) + opt_text_param("grupo"@, p.grupo)), opt_text_param("telefone"@, p.telefone), x);
    }
    if let Some(v) = p.grupo {
        let x = "grupo"@ + seq!['='] + encode_uri_component(v@);
        assert(opt_text_param("grupo"@, p.grupo)[0] == x);
        lemma_contains_concat(((((paging_params(p.skip, p.limit) + opt_u32_param("id"@, p.id)) + opt_text_param("nome"@, p.nome)) + opt_text_param("matricula"@, p.matricula)) + opt_text_param("cpf"@, p.cpf)), opt_text_param("grupo"@, p.grupo), x);
        lemma_contains_concat((((((paging_params(p.skip, p.limit) + opt_u32_param("id"@, p.id)) + opt_text_param("nome"@, p.nome)) + opt_text_param("matricula"@, p.matricula)) + opt_text_param("cpf"@, p.cpf)) + opt_text_param("grupo"@, p.grupo)), opt_text_param("telefone"@, p.telefone), x);
    }
    if let Some(v) = p.telefone {
        let x = "telefone"@ + seq!['='] + encode_uri_component(v@);
        assert(opt_text_param("telefone"@, p.telefone)[0] == x);
        lemma_contains_concat((((((paging_params(p.skip, p.limit) + opt_u32_param("id"@, p.id)) + opt_text_param("nome"@, p.nome)) + opt_text_param("matricula"@, p.matricula)) + opt_text_param("cpf"@, p.cpf)) + opt_text_param("grupo"@, p.grupo)), opt_text_param("telefone"@, p.telefone), x);
    }
    if p.id is Some && p.nome is Some && p.matricula is Some && p.cpf is Some && p.grupo is Some && p.telefone is Some {
        assert(funcionario_query(p) =~= seq![
            funcionario_query(p)[0],
            funcionario_query(p)[1],
            "id"@ + seq!['='] + encode_uri_component(decimal(p.id->0 as nat)),
            "nome"@ + seq!['='] + encode_uri_component(p.nome->0@),
            "matricula"@ + seq!['='] + encode_uri_component(p.matricula->0@),
            "cpf"@ + seq!['='] + encode_uri_component(p.cpf->0@),
            "grupo"@ + seq!['='] + encode_uri_component(p.grupo->0@),
            "telefone"@ + seq!['='] + encode_uri_component(p.telefone->0@),
        ]);
    }
}

} // verus!
