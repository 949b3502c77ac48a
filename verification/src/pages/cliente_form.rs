//! The client form.
use vstd::prelude::*;
use crate::hooks::masks::only_digits;
use crate::services::cliente_service::ClientePayload;
use crate::text::{digits_of, from_chars, to_chars, trim, trim_chars};

verus! {

/// Why the client form cannot be sent, checked in order: the trimmed name; the
/// CPF's digits (eleven); the phone's digits (ten or eleven).
pub open spec fn cliente_error(nome: Seq<char>, cpf: Seq<char>, telefone: Seq<char>) -> Option<&'static str> {
    if trim(nome).len() == 0 {
        Some("Nome do cliente e obrigatorio")
    } else if digits_of(cpf).len() == 0 {
        Some("CPF do cliente e obrigatorio")
    } else if digits_of(cpf).len() != 11 {
        Some("CPF deve ter 11 digitos")
    } else if digits_of(telefone).len() == 0 {
        Some("Telefone do cliente e obrigatorio")
    } else if !(10 <= digits_of(telefone).len() <= 11) {
        Some("Telefone deve ter 10 ou 11 digitos")
    } else {
        None
    }
}

/// Submitting the client form: the first problem of `cliente_error`, else the
/// trimmed name and the digits of CPF and phone.
pub fn cliente_submit(nome: &str, cpf: &str, telefone: &str) -> (r: Result<ClientePayload, &'static str>)
    ensures
        match r {
            Err(m) => cliente_error(nome@, cpf@, telefone@) == Some(m),
            Ok(p) => {
                &&& cliente_error(nome@, cpf@, telefone@) is None
                &&& p.nome@ == trim(nome@)
                &&& p.cpf@ == digits_of(cpf@)
                &&& p.telefone@ == digits_of(telefone@)
            },
        },
{
    let nome_value = from_chars(&trim_chars(&to_chars(nome)));
    let cpf_value = only_digits(cpf);
    let telefone_value = only_digits(telefone);
    let cpf_len = to_chars(cpf_value.as_str()).len();
    let telefone_len = to_chars(telefone_value.as_str()).len();
    if to_chars(nome_value.as_str()).len() == 0 {
        return Err("Nome do cliente e obrigatorio");
    }
    if cpf_len == 0 {
        return Err("CPF do cliente e obrigatorio");
    }
    if cpf_len != 11 {
        return Err("CPF deve ter 11 digitos");
    }
    if telefone_len == 0 {
        return Err("Telefone do cliente e obrigatorio");
    }
    if !(10 <= telefone_len && telefone_len <= 11) {
        return Err("Telefone deve ter 10 ou 11 digitos");
    }
    Ok(ClientePayload { nome: nome_value, cpf: cpf_value, telefone: telefone_value })
}

/// The client form takes any client with a name, an eleven-digit CPF and a phone
/// of ten or eleven digits, however they were typed.
pub proof fn law_cliente_form_accepts_valid(nome: Seq<char>, cpf: Seq<char>, telefone: Seq<char>)
    requires
        trim(nome).len() > 0,
        digits_of(cpf).len() == 11,
        10 <= digits_of(telefone).len() <= 11,
    ensures
        cliente_error(nome, cpf, telefone) is None,
{
}

/// Every refusal of the client form names a field that breaks its rule.
pub proof fn law_cliente_form_errors_explained(nome: Seq<char>, cpf: Seq<char>, telefone: Seq<char>)
    ensures
        cliente_error(nome, cpf, telefone) is Some ==> trim(nome).len() == 0 || digits_of(cpf).len() != 11
            || !(10 <= digits_of(telefone).len() <= 11),
        cliente_error(nome, cpf, telefone) == Some("Nome do cliente e obrigatorio") ==> trim(nome).len() == 0,
        cliente_error(nome, cpf, telefone) == Some("CPF do cliente e obrigatorio") ==> digits_of(cpf).len() == 0,
        cliente_error(nome, cpf, telefone) == Some("CPF deve ter 11 digitos") ==> digits_of(cpf).len() != 11,
        cliente_error(nome, cpf, telefone) == Some("Telefone do cliente e obrigatorio") ==> digits_of(telefone).len()
            == 0,
        cliente_error(nome, cpf, telefone) == Some("Telefone deve ter 10 ou 11 digitos") ==> !(10 <= digits_of(
            telefone,
        ).len() <= 11),
{
}

} // verus!
