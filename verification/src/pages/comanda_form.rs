//! The comanda form.
use vstd::prelude::*;
use crate::components::common::filter_fields::{clean_text, parse_u32, spec_clean_text, spec_parse_u32};
use crate::hooks::masks::only_digits;
use crate::number::spec_u32_from_str;
use crate::text::{digits_of, from_chars, opt_chars, take_at_most, take_chars, to_chars, trim};

verus! {

/// The value of a `datetime-local` input: the first sixteen characters
/// (`YYYY-MM-DDTHH:MM`) of the stored date and time, or empty.
pub open spec fn spec_datetime_input_value(value: Option<Seq<char>>) -> Seq<char> {
    match value {
        Some(s) => take_at_most(s, 16),
        None => Seq::empty(),
    }
}

/// The value of a `datetime-local` input for a stored date and time.
pub fn datetime_input_value(value: Option<String>) -> (r: String)
    ensures
        r@ == spec_datetime_input_value(opt_chars(value)),
{
    match value {
        Some(s) => {
            let v = to_chars(s.as_str());
            from_chars(&take_chars(&v, 16))
        },
        None => String::new(),
    }
}

/// The body that creates or updates a comanda.
#[derive(Debug, Clone)]
pub struct ComandaPayload {
    pub comanda: String,
    pub cliente_id: Option<String>,
    pub funcionario_id: Option<u32>,
    pub status: i32,
}

/// The responsible employee: the id typed (trimmed), else the signed-in user's.
pub open spec fn chosen_funcionario(funcionario: Seq<char>, user_id: Option<u32>) -> Option<u32> {
    match spec_parse_u32(funcionario) {
        Some(f) => Some(f as u32),
        None => user_id,
    }
}

/// Submitting the comanda form: the number is the digits typed and is required; a
/// responsible employee is required (see `chosen_funcionario`); the client id is the
/// trimmed text, unset when empty. (Whether the number is already used by another
/// open comanda is checked next, with `check_in_use_params` and `in_use_index`.)
pub fn comanda_submit(
    comanda_text: &str,
    cliente_text: String,
    funcionario_text: &str,
    user_id: Option<u32>,
    status: i32,
) -> (r: Result<ComandaPayload, &'static str>)
    ensures
        digits_of(comanda_text@).len() == 0 ==> r == Err::<ComandaPayload, &'static str>(
            "Numero da comanda e obrigatorio",
        ),
        digits_of(comanda_text@).len() > 0 && chosen_funcionario(funcionario_text@, user_id) is None ==> r
            == Err::<ComandaPayload, &'static str>("Funcionario responsavel nao encontrado"),
        r is Ok <==> digits_of(comanda_text@).len() > 0 && chosen_funcionario(funcionario_text@, user_id) is Some,
        r matches Ok(p) ==> {
            &&& p.comanda@ == digits_of(comanda_text@)
            &&& opt_chars(p.cliente_id) == spec_clean_text(cliente_text@)
            &&& p.funcionario_id == chosen_funcionario(funcionario_text@, user_id)
            &&& p.status == status
        },
{
    let comanda = only_digits(comanda_text);
    let funcionario_id = match parse_u32(funcionario_text) {
        Some(f) => Some(f),
        None => user_id,
    };
    if comanda.as_str().is_empty() {
        return Err("Numero da comanda e obrigatorio");
    }
    if funcionario_id.is_none() {
        return Err("Funcionario responsavel nao encontrado");
    }
    Ok(ComandaPayload { comanda, cliente_id: clean_text(cliente_text), funcionario_id, status })
}

/// The responsible employee of a comanda is the id typed in the form when it reads
/// as a number (trimmed), and otherwise the signed-in user.
pub proof fn law_comanda_funcionario(funcionario: Seq<char>, user_id: Option<u32>)
    ensures
        spec_u32_from_str(trim(funcionario)) matches Ok(n) ==> chosen_funcionario(funcionario, user_id) == Some(
            n as u32,
        ),
        spec_u32_from_str(trim(funcionario)) is Err ==> chosen_funcionario(funcionario, user_id) == user_id,
{
}

} // verus!
