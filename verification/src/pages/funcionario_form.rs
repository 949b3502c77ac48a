//! The employee form.
use vstd::prelude::*;
use crate::components::common::filter_fields::{parse_i32, spec_parse_i32};
use crate::hooks::masks::only_digits;
use crate::services::funcionario_service::{FuncionarioCreatePayload, FuncionarioUpdatePayload};
use crate::text::{digits_of, from_chars, take_at_most, take_chars, to_chars, trim, trim_chars};

verus! {

/// The most characters a registration number (matrícula) may have.
pub const MAX_MATRICULA_CHARS: usize = 10;

/// A registration number as typed, cut to its first ten characters.
pub fn limit_matricula(value: &str) -> (r: String)
    ensures
        r@ == take_at_most(value@, MAX_MATRICULA_CHARS as int),
{
    let v = to_chars(value);
    from_chars(&take_chars(&v, MAX_MATRICULA_CHARS))
}

/// The group chosen in the form: the trimmed text as a number from 1 to 3.
pub open spec fn spec_parse_grupo(value: Seq<char>) -> Option<int> {
    match spec_parse_i32(value) {
        Some(g) => if 1 <= g <= 3 {
            Some(g)
        } else {
            None
        },
        None => None,
    }
}

/// The group chosen in the form (see `spec_parse_grupo`).
pub fn parse_grupo(value: &str) -> (r: Option<i32>)
    ensures
        match r {
            Some(g) => spec_parse_grupo(value@) == Some(g as int),
            None => spec_parse_grupo(value@) is None,
        },
{
    match parse_i32(value) {
        Some(g) => if 1 <= g && g <= 3 {
            Some(g)
        } else {
            None
        },
        None => None,
    }
}

/// What submitting the employee form sends: a new employee, or the changes to one.
#[derive(Debug)]
pub enum FuncionarioSubmit {
    Create(FuncionarioCreatePayload),
    Update(FuncionarioUpdatePayload),
}

/// Why the employee form cannot be sent, checked in order: the group; the trimmed
/// name and registration number (at most ten characters); the CPF's digits (eleven)
/// and the phone's digits (ten or eleven); a trimmed password for a new employee.
pub open spec fn funcionario_error(
    grupo: Seq<char>,
    nome: Seq<char>,
    matricula: Seq<char>,
    cpf: Seq<char>,
    telefone: Seq<char>,
    senha: Seq<char>,
    editing: bool,
) -> Option<&'static str> {
    if spec_parse_grupo(grupo) is None {
        Some("Grupo deve ser 1, 2 ou 3")
    } else if trim(nome).len() == 0 {
        Some("Nome do funcionario e obrigatorio")
    } else if trim(matricula).len() == 0 {
        Some("Matricula do funcionario e obrigatoria")
    } else if trim(matricula).len() > MAX_MATRICULA_CHARS {
        Some("Matricula deve ter no maximo 10 caracteres")
    } else if digits_of(cpf).len() == 0 {
        Some("CPF do funcionario e obrigatorio")
    } else if digits_of(cpf).len() != 11 {
        Some("CPF deve ter 11 digitos")
    } else if digits_of(telefone).len() == 0 {
        Some("Telefone do funcionario e obrigatorio")
    } else if !(10 <= digits_of(telefone).len() <= 11) {
        Some("Telefone deve ter 10 ou 11 digitos")
    } else if !editing && trim(senha).len() == 0 {
        Some("Senha do funcionario e obrigatoria")
    } else {
        None
    }
}

fn trimmed(value: &str) -> (r: String)
    ensures
        r@ == trim(value@),
{
    from_chars(&trim_chars(&to_chars(value)))
}

/// Submitting the employee form (`editing` an existing one or not): the first
/// problem of `funcionario_error`, else the trimmed name, registration number and
/// password, the digits of CPF and phone and the group; an update leaves the
/// password unchanged when none was typed.
pub fn funcionario_submit(
    editing: bool,
    nome: &str,
    matricula: &str,
    cpf: &str,
    telefone: &str,
    grupo: &str,
    senha: &str,
) -> (r: Result<FuncionarioSubmit, &'static str>)
    ensures
        match r {
            Err(m) => funcionario_error(grupo@, nome@, matricula@, cpf@, telefone@, senha@, editing) == Some(m),
            Ok(FuncionarioSubmit::Create(p)) => {
                &&& funcionario_error(grupo@, nome@, matricula@, cpf@, telefone@, senha@, editing) is None
                &&& !editing
                &&& p.nome@ == trim(nome@) && p.matricula@ == trim(matricula@) && p.senha@ == trim(senha@)
                &&& p.cpf@ == digits_of(cpf@) && p.telefone@ == digits_of(telefone@)
                &&& spec_parse_grupo(grupo@) == Some(p.grupo as int)
            },
            Ok(FuncionarioSubmit::Update(p)) => {
                &&& funcionario_error(grupo@, nome@, matricula@, cpf@, telefone@, senha@, editing) is None
                &&& editing
                &&& p.nome matches Some(n) && n@ == trim(nome@)
                &&& p.matricula matches Some(m) && m@ == trim(matricula@)
                &&& p.cpf matches Some(c) && c@ == digits_of(cpf@)
                &&& p.telefone matches Some(t) && t@ == digits_of(telefone@)
                &&& p.grupo matches Some(g) && spec_parse_grupo(grupo@) == Some(g as int)
                &&& if trim(senha@).len() == 0 {
                    p.senha is None
                } else {
                    p.senha matches Some(s) && s@ == trim(senha@)
                }
            },
        },
{
    let nome_value = trimmed(nome);
    let matricula_value = trimmed(matricula);
    let cpf_value = only_digits(cpf);
    let telefone_value = only_digits(telefone);
    let grupo_value = match parse_grupo(grupo) {
        Some(g) => g,
        None => return Err("Grupo deve ser 1, 2 ou 3"),
    };
    let senha_value = trimmed(senha);
    let matricula_len = to_chars(matricula_value.as_str()).len();
    let cpf_len = to_chars(cpf_value.as_str()).len();
    let telefone_len = to_chars(telefone_value.as_str()).len();
    let senha_len = to_chars(senha_value.as_str()).len();
    if to_chars(nome_value.as_str()).len() == 0 {
        return Err("Nome do funcionario e obrigatorio");
    }
    if matricula_len == 0 {
        return Err("Matricula do funcionario e obrigatoria");
    }
    if matricula_len > MAX_MATRICULA_CHARS {
        return Err("Matricula deve ter no maximo 10 caracteres");
    }
    if cpf_len == 0 {
        return Err("CPF do funcionario e obrigatorio");
    }
    if cpf_len != 11 {
        return Err("CPF deve ter 11 digitos");
    }
    if telefone_len == 0 {
        return Err("Telefone do funcionario e obrigatorio");
    }
    if !(10 <= telefone_len && telefone_len <= 11) {
        return Err("Telefone deve ter 10 ou 11 digitos");
    }
    if !editing && senha_len == 0 {
        return Err("Senha do funcionario e obrigatoria");
    }
    if editing {
        let senha_opt = if senha_len == 0 {
            None
        } else {
            Some(senha_value)
        };
        Ok(
            FuncionarioSubmit::Update(
                FuncionarioUpdatePayload {
                    nome: Some(nome_value),
                    matricula: Some(matricula_value),
                    cpf: Some(cpf_value),
                    telefone: Some(telefone_value),
                    grupo: Some(grupo_value),
                    senha: senha_opt,
                },
            ),
        )
    } else {
        Ok(
            FuncionarioSubmit::Create(
                FuncionarioCreatePayload {
                    nome: nome_value,
                    matricula: matricula_value,
                    cpf: cpf_value,
                    telefone: telefone_value,
                    grupo: grupo_value,
                    senha: senha_value,
                },
            ),
        )
    }
}

/// The employee form takes any employee with a group from 1 to 3, a name, a
/// registration number of one to ten characters, an eleven-digit CPF, a phone of ten
/// or eleven digits and, when the employee is new, a password.
pub proof fn law_funcionario_form_accepts_valid(
    grupo: Seq<char>,
    nome: Seq<char>,
    matricula: Seq<char>,
    cpf: Seq<char>,
    telefone: Seq<char>,
    senha: Seq<char>,
    editing: bool,
)
    requires
        spec_parse_i32(grupo) matches Some(g) && 1 <= g <= 3,
        trim(nome).len() > 0,
        1 <= trim(matricula).len() <= 10,
        digits_of(cpf).len() == 11,
        10 <= digits_of(telefone).len() <= 11,
        editing || trim(senha).len() > 0,
    ensures
        funcionario_error(grupo, nome, matricula, cpf, telefone, senha, editing) is None,
{
}

/// Every refusal of the employee form names a field that breaks its rule.
pub proof fn law_funcionario_form_errors_explained(
    grupo: Seq<char>,
    nome: Seq<char>,
    matricula: Seq<char>,
    cpf: Seq<char>,
    telefone: Seq<char>,
    senha: Seq<char>,
    editing: bool,
)
    ensures
        ({
            let e = funcionario_error(grupo, nome, matricula, cpf, telefone, senha, editing);
            &&& e == Some("Grupo deve ser 1, 2 ou 3") ==> !(spec_parse_i32(grupo) matches Some(g) && 1 <= g <= 3)
            &&& e == Some("Nome do funcionario e obrigatorio") ==> trim(nome).len() == 0
            &&& e == Some("Matricula do funcionario e obrigatoria") ==> trim(matricula).len() == 0
            &&& e == Some("Matricula deve ter no maximo 10 caracteres") ==> trim(matricula).len() > 10
            &&& e == Some("CPF do funcionario e obrigatorio") ==> digits_of(cpf).len() == 0
            &&& e == Some("CPF deve ter 11 digitos") ==> digits_of(cpf).len() != 11
            &&& e == Some("Telefone do funcionario e obrigatorio") ==> digits_of(telefone).len() == 0
            &&& e == Some("Telefone deve ter 10 ou 11 digitos") ==> !(10 <= digits_of(telefone).len() <= 11)
            &&& e == Some("Senha do funcionario e obrigatoria") ==> !editing && trim(senha).len() == 0
        }),
{
}

} // verus!
