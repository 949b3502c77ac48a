//! How optional values are shown in tables and details.
use vstd::prelude::*;
use crate::number::{decimal, u32_to_string};
use crate::text::{blank, is_blank, opt_chars, owned, to_chars, trim};

verus! {

/// An optional id: its number, or `-`.
pub open spec fn spec_display_optional_id(value: Option<u32>) -> Seq<char> {
    match value {
        Some(n) => decimal(n as nat),
        None => "-"@,
    }
}

/// An optional id: its number, or `-`.
pub fn display_optional_id(value: Option<u32>) -> (r: String)
    ensures
        r@ == spec_display_optional_id(value),
{
    match value {
        Some(n) => u32_to_string(n),
        None => owned("-"),
    }
}

/// An optional date and time: the text when it is not blank, `-` otherwise.
pub open spec fn spec_display_datetime(value: Option<Seq<char>>) -> Seq<char> {
    match value {
        Some(s) => if is_blank(s) {
            "-"@
        } else {
            s
        },
        None => "-"@,
    }
}

/// An optional date and time: the text when it is not blank, `-` otherwise.
pub fn display_datetime(value: Option<String>) -> (r: String)
    ensures
        r@ == spec_display_datetime(opt_chars(value)),
{
    match value {
        Some(s) => {
            let v = to_chars(s.as_str());
            if blank(&v) {
                owned("-")
            } else {
                s
            }
        },
        None => owned("-"),
    }
}

/// A person shown by name when the name is not blank, by id otherwise.
pub open spec fn spec_display_name_or_id(name: Seq<char>, id: Option<u32>) -> Seq<char> {
    if is_blank(name) {
        spec_display_optional_id(id)
    } else {
        name
    }
}

/// A person shown by name when the name is not blank, by id (or `-`) otherwise.
pub fn display_name_or_id(name: &str, id: Option<u32>) -> (r: String)
    ensures
        r@ == spec_display_name_or_id(name@, id),
{
    let v = to_chars(name);
    if blank(&v) {
        display_optional_id(id)
    } else {
        owned(name)
    }
}

/// A person is shown by the name when it is not blank, else by the id, else as `-`.
pub proof fn law_display_name_or_id(name: Seq<char>, id: Option<u32>)
    ensures
        trim(name).len() > 0 ==> spec_display_name_or_id(name, id) == name,
        trim(name).len() == 0 ==> (id matches Some(n) ==> spec_display_name_or_id(name, id) == decimal(n as nat)),
        trim(name).len() == 0 && id is None ==> spec_display_name_or_id(name, id) == "-"@,
{
}

/// A date is shown as stored unless it is missing or blank, which shows `-`.
pub proof fn law_display_datetime(value: Option<Seq<char>>)
    ensures
        value matches Some(s) ==> (trim(s).len() > 0 ==> spec_display_datetime(value) == s),
        value matches Some(s) ==> (trim(s).len() == 0 ==> spec_display_datetime(value) == "-"@),
        value is None ==> spec_display_datetime(value) == "-"@,
{
}

} // verus!
