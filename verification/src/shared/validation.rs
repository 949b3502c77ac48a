//! Form validation rules shared by the whole application.
use vstd::prelude::*;
use crate::text::{is_blank, str_blank, to_chars};

verus! {

/// A name is required: it may not be empty or white space only.
pub fn validar_nome(nome: &str) -> (r: Result<(), &'static str>)
    ensures
        r is Err <==> is_blank(nome@),
        r matches Err(m) ==> m@ == "Nome é obrigatório"@,
{
    if str_blank(nome) {
        Err("Nome é obrigatório")
    } else {
        Ok(())
    }
}

/// A CPF is required: it may not be empty or white space only.
pub fn validar_cpf(cpf: &str) -> (r: Result<(), &'static str>)
    ensures
        r is Err <==> is_blank(cpf@),
        r matches Err(m) ==> m@ == "CPF é obrigatório"@,
{
    if str_blank(cpf) {
        Err("CPF é obrigatório")
    } else {
        Ok(())
    }
}

/// A password is required and must be at least six characters long.
pub fn validar_senha(senha: &str) -> (r: Result<(), &'static str>)
    ensures
        senha@.len() == 0 ==> r == Err::<(), &'static str>("Senha é obrigatória"),
        0 < senha@.len() < 6 ==> r == Err::<(), &'static str>("Senha deve ter pelo menos 6 caracteres"),
        r is Ok <==> senha@.len() >= 6,
{
    let v = to_chars(senha);
    if v.len() == 0 {
        return Err("Senha é obrigatória");
    }
    if v.len() < 6 {
        return Err("Senha deve ter pelo menos 6 caracteres");
    }
    Ok(())
}

} // verus!
