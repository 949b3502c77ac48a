//! Reading the text fields of filter forms.
use vstd::prelude::*;
use crate::number::{i32_from_str, spec_i32_from_str, spec_u32_from_str, u32_from_str};
use crate::text::{digits_chars, digits_of, from_chars, opt_chars, opt_i32_int, opt_u32_int, to_chars, trim, trim_chars};

verus! {

/// A text filter: the trimmed text, or no filter when it is empty.
pub open spec fn spec_clean_text(value: Seq<char>) -> Option<Seq<char>> {
    if trim(value).len() == 0 {
        None
    } else {
        Some(trim(value))
    }
}

/// A text filter: the trimmed text, or no filter when it is empty.
pub fn clean_text(value: String) -> (r: Option<String>)
    ensures
        opt_chars(r) == spec_clean_text(value@),
{
    let v = to_chars(value.as_str());
    let t = trim_chars(&v);
    if t.len() == 0 {
        None
    } else {
        Some(from_chars(&t))
    }
}

/// A digits filter: the digits of the text, or no filter when there are none.
pub open spec fn spec_clean_digits(value: Seq<char>) -> Option<Seq<char>> {
    if digits_of(value).len() == 0 {
        None
    } else {
        Some(digits_of(value))
    }
}

/// A digits filter: the digits of the text, or no filter when there are none.
pub fn clean_digits(value: String) -> (r: Option<String>)
    ensures
        opt_chars(r) == spec_clean_digits(value@),
{
    let v = to_chars(value.as_str());
    let d = digits_chars(&v);
    if d.len() == 0 {
        None
    } else {
        Some(from_chars(&d))
    }
}

/// The trimmed text read as a `u32`, when it is one.
pub open spec fn spec_parse_u32(value: Seq<char>) -> Option<int> {
    match spec_u32_from_str(trim(value)) {
        Ok(n) => Some(n),
        Err(_) => None,
    }
}

/// The trimmed text read as an `i32`, when it is one.
pub open spec fn spec_parse_i32(value: Seq<char>) -> Option<int> {
    match spec_i32_from_str(trim(value)) {
        Ok(n) => Some(n),
        Err(_) => None,
    }
}

/// A number filter: the trimmed text read as a `u32`; no filter when it is empty or
/// not a number.
pub fn parse_u32(value: &str) -> (r: Option<u32>)
    ensures
        opt_u32_int(r) == spec_parse_u32(value@),
{
    let v = to_chars(value);
    let t = from_chars(&trim_chars(&v));
    match u32_from_str(t.as_str()) {
        Ok(n) => Some(n),
        Err(_) => None,
    }
}

/// A number filter: the trimmed text read as an `i32`; no filter when it is empty or
/// not a number.
pub fn parse_i32(value: &str) -> (r: Option<i32>)
    ensures
        opt_i32_int(r) == spec_parse_i32(value@),
{
    let v = to_chars(value);
    let t = from_chars(&trim_chars(&v));
    match i32_from_str(t.as_str()) {
        Ok(n) => Some(n),
        Err(_) => None,
    }
}

} // verus!
