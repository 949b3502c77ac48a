//! The signed-in user's profile card.
use vstd::prelude::*;
use crate::hooks::masks::{cpf_layout, spec_apply_cpf_mask};
use crate::text::{digits_chars, digits_of, owned, push_chars, take_at_most, to_chars};

verus! {

/// A CPF shown in the profile: laid out as `000.000.000-00` when it holds exactly
/// eleven digits, as stored otherwise.
pub open spec fn spec_format_cpf(cpf: Seq<char>) -> Seq<char> {
    if digits_of(cpf).len() == 11 {
        cpf_layout(digits_of(cpf))
    } else {
        cpf
    }
}

/// A CPF shown in the profile (see `spec_format_cpf`).
pub fn format_cpf(cpf: &str) -> (r: String)
    ensures
        r@ == spec_format_cpf(cpf@),
{
    let v = to_chars(cpf);
    let d = digits_chars(&v);
    if d.len() != 11 {
        return owned(cpf);
    }
    let mut r = String::new();
    let a = crate::text::slice_chars(&d, 0, 3);
    let b = crate::text::slice_chars(&d, 3, 6);
    let c = crate::text::slice_chars(&d, 6, 9);
    let e = crate::text::slice_chars(&d, 9, 11);
    push_chars(&mut r, &a);
    crate::text::string_push(&mut r, '.');
    push_chars(&mut r, &b);
    crate::text::string_push(&mut r, '.');
    push_chars(&mut r, &c);
    crate::text::string_push(&mut r, '-');
    push_chars(&mut r, &e);
    assert(r@ =~= cpf_layout(d@));
    r
}

/// A CPF with exactly eleven digits is shown in the profile as the input mask lays it out.
pub proof fn law_format_cpf_agrees_with_mask(cpf: Seq<char>)
    requires
        digits_of(cpf).len() == 11,
    ensures
        spec_format_cpf(cpf) == spec_apply_cpf_mask(cpf),
{
    assert(take_at_most(digits_of(cpf), 11) == digits_of(cpf));
}

} // verus!
