//! Input masks for CPF numbers and phone numbers.
use vstd::prelude::*;
use crate::text::{
    all_digits, digits_chars, digits_of, is_ascii_digit, lemma_digits_of_add,
    lemma_digits_of_all_digits, lemma_digits_of_are_digits, lemma_digits_of_no_digits,
    push_chars, push_range, string_push, take_at_most, take_chars, to_chars,
};

verus! {

/// The digits `d` (at most eleven) laid out as a CPF: `000.000.000-00`, as far as
/// there are digits.
pub open spec fn cpf_layout(d: Seq<char>) -> Seq<char> {
    let n = d.len() as int;
    if n <= 3 {
        d
    } else if n <= 6 {
        d.subrange(0, 3) + seq!['.'] + d.subrange(3, n)
    } else if n <= 9 {
        d.subrange(0, 3) + seq!['.'] + d.subrange(3, 6) + seq!['.'] + d.subrange(6, n)
    } else {
        d.subrange(0, 3) + seq!['.'] + d.subrange(3, 6) + seq!['.'] + d.subrange(6, 9) + seq!['-']
            + d.subrange(9, n)
    }
}

/// The digits `d` (at most eleven) laid out as a phone number: `(00) 0000-0000`
/// for up to ten digits, `(00) 00000-0000` for eleven.
pub open spec fn phone_layout(d: Seq<char>) -> Seq<char> {
    let n = d.len() as int;
    if n <= 2 {
        d
    } else if n <= 6 {
        seq!['('] + d.subrange(0, 2) + seq![')', ' '] + d.subrange(2, n)
    } else if n <= 10 {
        seq!['('] + d.subrange(0, 2) + seq![')', ' '] + d.subrange(2, 6) + seq!['-'] + d.subrange(
            6,
            n,
        )
    } else {
        seq!['('] + d.subrange(0, 2) + seq![')', ' '] + d.subrange(2, 7) + seq!['-'] + d.subrange(
            7,
            n,
        )
    }
}

/// What `apply_cpf_mask` returns for `s`: its first eleven digits, laid out as a CPF.
pub open spec fn spec_apply_cpf_mask(s: Seq<char>) -> Seq<char> {
    cpf_layout(take_at_most(digits_of(s), 11))
}

/// What `apply_phone_mask` returns for `s`: its first eleven digits, laid out as a phone number.
pub open spec fn spec_apply_phone_mask(s: Seq<char>) -> Seq<char> {
    phone_layout(take_at_most(digits_of(s), 11))
}

/// The ASCII digits of `value`, in order; every other character is dropped.
pub fn only_digits(value: &str) -> (r: String)
    ensures
        r@ == digits_of(value@),
{
    let v = to_chars(value);
    let d = digits_chars(&v);
    let mut r = String::new();
    push_chars(&mut r, &d);
    assert(r@ =~= digits_of(value@));
    r
}

/// Keeps the first eleven digits of `value` and lays them out as a CPF
/// (`123.456.789-01`), as far as digits were typed.
pub fn apply_cpf_mask(value: &str) -> (r: String)
    ensures
        r@ == spec_apply_cpf_mask(value@),
{
    let v = to_chars(value);
    let all = digits_chars(&v);
    let d = take_chars(&all, 11);
    let n = d.len();
    let mut r = String::new();
    if n <= 3 {
        push_chars(&mut r, &d);
    } else if n <= 6 {
        push_range(&mut r, &d, 0, 3);
        string_push(&mut r, '.');
        push_range(&mut r, &d, 3, n);
    } else if n <= 9 {
        push_range(&mut r, &d, 0, 3);
        string_push(&mut r, '.');
        push_range(&mut r, &d, 3, 6);
        string_push(&mut r, '.');
        push_range(&mut r, &d, 6, n);
    } else {
        push_range(&mut r, &d, 0, 3);
        string_push(&mut r, '.');
        push_range(&mut r, &d, 3, 6);
        string_push(&mut r, '.');
        push_range(&mut r, &d, 6, 9);
        string_push(&mut r, '-');
        push_range(&mut r, &d, 9, n);
    }
    assert(r@ =~= spec_apply_cpf_mask(value@));
    r
}

/// Keeps the first eleven digits of `value` and lays them out as a phone number
/// (`(11) 2345-6789` or `(11) 92345-6789`), as far as digits were typed.
pub fn apply_phone_mask(value: &str) -> (r: String)
    ensures
        r@ == spec_apply_phone_mask(value@),
{
    let v = to_chars(value);
    let all = digits_chars(&v);
    let d = take_chars(&all, 11);
    let n = d.len();
    let mut r = String::new();
    if n <= 2 {
        push_chars(&mut r, &d);
    } else if n <= 6 {
        string_push(&mut r, '(');
        push_range(&mut r, &d, 0, 2);
        string_push(&mut r, ')');
        string_push(&mut r, ' ');
        push_range(&mut r, &d, 2, n);
    } else if n <= 10 {
        string_push(&mut r, '(');
        push_range(&mut r, &d, 0, 2);
        string_push(&mut r, ')');
        string_push(&mut r, ' ');
        push_range(&mut r, &d, 2, 6);
        string_push(&mut r, '-');
        push_range(&mut r, &d, 6, n);
    } else {
        string_push(&mut r, '(');
        push_range(&mut r, &d, 0, 2);
        string_push(&mut r, ')');
        string_push(&mut r, ' ');
        push_range(&mut r, &d, 2, 7);
        string_push(&mut r, '-');
        push_range(&mut r, &d, 7, n);
    }
    assert(r@ =~= spec_apply_phone_mask(value@));
    r
}

proof fn lemma_digits_sub(d: Seq<char>, i: int, j: int)
    requires
        all_digits(d),
        0 <= i <= j <= d.len(),
    ensures
        digits_of(d.subrange(i, j)) == d.subrange(i, j),
{
    let t = d.subrange(i, j);
    assert forall|k: int| 0 <= k < t.len() implies is_ascii_digit(#[trigger] t[k]) by {
        assert(t[k] == d[i + k]);
    }
    lemma_digits_of_all_digits(t);
}

proof fn lemma_digits_sep(sep: Seq<char>)
    requires
        forall|k: int| 0 <= k < sep.len() ==> !is_ascii_digit(#[trigger] sep[k]),
    ensures
        digits_of(sep) == Seq::<char>::empty(),
{
    lemma_digits_of_no_digits(sep);
}

proof fn lemma_first_digits(s: Seq<char>)
    ensures
        all_digits(take_at_most(digits_of(s), 11)),
        take_at_most(digits_of(s), 11).len() <= 11,
{
    lemma_digits_of_are_digits(s);
    let d = digits_of(s);
    let t = take_at_most(d, 11);
    assert forall|k: int| 0 <= k < t.len() implies is_ascii_digit(#[trigger] t[k]) by {
        assert(t[k] == d[k]);
    }
}

/// Layout characters are no digits, so the digits of a CPF layout are the digits laid out.
proof fn lemma_cpf_layout_digits(d: Seq<char>)
    requires
        all_digits(d),
    ensures
        digits_of(cpf_layout(d)) == d,
{
    let n = d.len() as int;
    lemma_digits_sep(seq!['.']);
    lemma_digits_sep(seq!['-']);
    if n <= 3 {
        lemma_digits_of_all_digits(d);
    } else {
        lemma_digits_sub(d, 0, 3);
        if n <= 6 {
            lemma_digits_sub(d, 3, n);
            lemma_digits_of_add(d.subrange(0, 3), seq!['.']);
            lemma_digits_of_add(d.subrange(0, 3) + seq!['.'], d.subrange(3, n));
            assert(d.subrange(0, 3) + d.subrange(3, n) =~= d);
        } else {
            lemma_digits_sub(d, 3, 6);
            lemma_digits_of_add(d.subrange(0, 3), seq!['.']);
            lemma_digits_of_add(d.subrange(0, 3) + seq!['.'], d.subrange(3, 6));
            let p2 = d.subrange(0, 3) + seq!['.'] + d.subrange(3, 6);
            lemma_digits_of_add(p2, seq!['.']);
            if n <= 9 {
                lemma_digits_sub(d, 6, n);
                lemma_digits_of_add(p2 + seq!['.'], d.subrange(6, n));
                assert(d.subrange(0, 3) + d.subrange(3, 6) + d.subrange(6, n) =~= d);
            } else {
                lemma_digits_sub(d, 6, 9);
                lemma_digits_sub(d, 9, n);
                lemma_digits_of_add(p2 + seq!['.'], d.subrange(6, 9));
                let p3 = p2 + seq!['.'] + d.subrange(6, 9);
                lemma_digits_of_add(p3, seq!['-']);
                lemma_digits_of_add(p3 + seq!['-'], d.subrange(9, n));
                assert(d.subrange(0, 3) + d.subrange(3, 6) + d.subrange(6, 9) + d.subrange(9, n)
                    =~= d);
            }
        }
    }
}

/// Layout characters are no digits, so the digits of a phone layout are the digits laid out.
proof fn lemma_phone_layout_digits(d: Seq<char>)
    requires
        all_digits(d),
    ensures
        digits_of(phone_layout(d)) == d,
{
    let n = d.len() as int;
    let open = seq!['('];
    let close = seq![')', ' '];
    let dash = seq!['-'];
    lemma_digits_sep(open);
    assert(!is_ascii_digit(close[0]) && !is_ascii_digit(close[1]));
    lemma_digits_sep(close);
    lemma_digits_sep(dash);
    if n <= 2 {
        lemma_digits_of_all_digits(d);
    } else {
        lemma_digits_sub(d, 0, 2);
        lemma_digits_of_add(open, d.subrange(0, 2));
        lemma_digits_of_add(open + d.subrange(0, 2), close);
        let p = open + d.subrange(0, 2) + close;
        if n <= 6 {
            lemma_digits_sub(d, 2, n);
            lemma_digits_of_add(p, d.subrange(2, n));
            assert(d.subrange(0, 2) + d.subrange(2, n) =~= d);
        } else {
            let k: int = if n <= 10 {
                6
            } else {
                7
            };
            lemma_digits_sub(d, 2, k);
            lemma_digits_sub(d, k, n);
            lemma_digits_of_add(p, d.subrange(2, k));
            lemma_digits_of_add(p + d.subrange(2, k), dash);
            lemma_digits_of_add(p + d.subrange(2, k) + dash, d.subrange(k, n));
            assert(d.subrange(0, 2) + d.subrange(2, k) + d.subrange(k, n) =~= d);
        }
    }
}

/// The CPF mask keeps exactly the first eleven digits of the input: no digit is
/// added, dropped or reordered.
pub proof fn law_cpf_mask_keeps_digits(s: Seq<char>)
    ensures
        digits_of(spec_apply_cpf_mask(s)) == take_at_most(digits_of(s), 11),
{
    lemma_first_digits(s);
    lemma_cpf_layout_digits(take_at_most(digits_of(s), 11));
}

/// Masking an already masked CPF changes nothing.
pub proof fn law_cpf_mask_idempotent(s: Seq<char>)
    ensures
        spec_apply_cpf_mask(spec_apply_cpf_mask(s)) == spec_apply_cpf_mask(s),
{
    law_cpf_mask_keeps_digits(s);
    lemma_first_digits(s);
}

/// The phone mask keeps exactly the first eleven digits of the input.
pub proof fn law_phone_mask_keeps_digits(s: Seq<char>)
    ensures
        digits_of(spec_apply_phone_mask(s)) == take_at_most(digits_of(s), 11),
{
    lemma_first_digits(s);
    lemma_phone_layout_digits(take_at_most(digits_of(s), 11));
}

/// Masking an already masked phone number changes nothing.
pub proof fn law_phone_mask_idempotent(s: Seq<char>)
    ensures
        spec_apply_phone_mask(spec_apply_phone_mask(s)) == spec_apply_phone_mask(s),
{
    law_phone_mask_keeps_digits(s);
    lemma_first_digits(s);
}

/// A CPF mask puts `.` after the third and sixth digit and `-` after the ninth, as
/// far as there are digits (at most eleven are kept): `000.000.000-00`.
pub proof fn law_cpf_mask_layout(s: Seq<char>)
    ensures
        ({
            let d = take_at_most(digits_of(s), 11);
            let m = spec_apply_cpf_mask(s);
            &&& d.len() <= 3 ==> m == d
            &&& 3 < d.len() ==> m.take(3) == d.take(3) && m[3] == '.'
            &&& 6 < d.len() ==> m.subrange(4, 7) == d.subrange(3, 6) && m[7] == '.'
            &&& 9 < d.len() ==> m.subrange(8, 11) == d.subrange(6, 9) && m[11] == '-' && m.skip(12) == d.skip(9)
            &&& 3 < d.len() <= 6 ==> m.skip(4) == d.skip(3)
            &&& 6 < d.len() <= 9 ==> m.skip(8) == d.skip(6)
            &&& m.len() == d.len() + (if d.len() > 3 { 1int } else { 0int }) + (if d.len() > 6 { 1int } else { 0int })
                + (if d.len() > 9 { 1int } else { 0int })
        }),
{
    let d = take_at_most(digits_of(s), 11);
    let m = spec_apply_cpf_mask(s);
    let n = d.len() as int;
    if 3 < n {
        assert(m.take(3) =~= d.take(3));
    }
    if 6 < n {
        assert(m.subrange(4, 7) =~= d.subrange(3, 6));
    }
    if 9 < n {
        assert(m.subrange(8, 11) =~= d.subrange(6, 9));
        assert(m.skip(12) =~= d.skip(9));
    }
    if 3 < n <= 6 {
        assert(m.skip(4) =~= d.skip(3));
    }
    if 6 < n <= 9 {
        assert(m.skip(8) =~= d.skip(6));
    }
}

/// A phone mask writes the area code in parentheses and a space, then the number
/// with `-` before its last four digits once there are more than six digits:
/// `(00) 0000-0000` for ten digits, `(00) 00000-0000` for eleven.
pub proof fn law_phone_mask_layout(s: Seq<char>)
    ensures
        ({
            let d = take_at_most(digits_of(s), 11);
            let m = spec_apply_phone_mask(s);
            &&& d.len() <= 2 ==> m == d
            &&& 2 < d.len() ==> m[0] == '(' && m.subrange(1, 3) == d.take(2) && m[3] == ')' && m[4] == ' '
            &&& 2 < d.len() <= 6 ==> m.skip(5) == d.skip(2)
            &&& 6 < d.len() <= 10 ==> m.subrange(5, 9) == d.subrange(2, 6) && m[9] == '-' && m.skip(10) == d.skip(6)
            &&& d.len() == 11 ==> m.subrange(5, 10) == d.subrange(2, 7) && m[10] == '-' && m.skip(11) == d.skip(7)
            &&& m.len() == d.len() + (if d.len() > 2 { 3int } else { 0int }) + (if d.len() > 6 { 1int } else { 0int })
        }),
{
    let d = take_at_most(digits_of(s), 11);
    let m = spec_apply_phone_mask(s);
    let n = d.len() as int;
    if 2 < n {
        assert(m.subrange(1, 3) =~= d.take(2));
    }
    if 2 < n <= 6 {
        assert(m.skip(5) =~= d.skip(2));
    }
    if 6 < n <= 10 {
        assert(m.subrange(5, 9) =~= d.subrange(2, 6));
        assert(m.skip(10) =~= d.skip(6));
    }
    if n == 11 {
        assert(m.subrange(5, 10) =~= d.subrange(2, 7));
        assert(m.skip(11) =~= d.skip(7));
    }
}

} // verus!
