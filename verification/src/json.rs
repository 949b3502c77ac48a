//! A JSON value held as plain data, with the accessors of `serde_json::Value` that
//! the application reads through (`get`, `as_str`, `as_i64`, `as_u64`), and the
//! field readers built on them.
use vstd::prelude::*;
use crate::number::{
    lemma_parse_unsigned_bounds,
    decimal, i64_to_string, signed_decimal, spec_i32_from_str, spec_u32_from_str, i32_from_str,
    u32_from_str, u64_to_string, int_error_message,
};
use crate::text::{blank, is_blank, owned, str_eq, to_chars, trim, trim_chars, from_chars};

verus! {

/// A JSON value. Numbers are held as `serde_json` holds them: a non-negative
/// integer, a negative integer, or a float (kept as the text `serde_json` writes for it).
/// Object entries keep their order; keys are unique in values that come from a parser.
#[derive(Debug)]
pub enum JsonValue {
    Null,
    Bool(bool),
    PosInt(u64),
    NegInt(i64),
    Float(String),
    Str(String),
    Array(Vec<JsonValue>),
    Object(Vec<(String, JsonValue)>),
}

/// The value of the first entry whose key is `key`.
pub open spec fn entry_lookup(es: Seq<(String, JsonValue)>, key: Seq<char>) -> Option<JsonValue>
    decreases es.len(),
{
    if es.len() == 0 {
        None
    } else if es[0].0@ == key {
        Some(es[0].1)
    } else {
        entry_lookup(es.drop_first(), key)
    }
}

/// `Value::get(key)`: the field `key` of an object; nothing for other values.
pub open spec fn json_get(v: JsonValue, key: Seq<char>) -> Option<JsonValue> {
    match v {
        JsonValue::Object(es) => entry_lookup(es@, key),
        _ => None,
    }
}

/// `Value::as_str`.
pub open spec fn json_as_str(v: JsonValue) -> Option<Seq<char>> {
    match v {
        JsonValue::Str(s) => Some(s@),
        _ => None,
    }
}

/// `Value::as_i64`: integers that fit in an `i64`.
pub open spec fn json_as_i64(v: JsonValue) -> Option<int> {
    match v {
        JsonValue::PosInt(n) => if n <= i64::MAX {
            Some(n as int)
        } else {
            None
        },
        JsonValue::NegInt(n) => Some(n as int),
        _ => None,
    }
}

/// `Value::as_u64`: non-negative integers.
pub open spec fn json_as_u64(v: JsonValue) -> Option<int> {
    match v {
        JsonValue::PosInt(n) => Some(n as int),
        _ => None,
    }
}

/// The value of the first entry whose key is `key`.
pub fn lookup_entries<'a>(es: &'a Vec<(String, JsonValue)>, key: &str) -> (r: Option<&'a JsonValue>)
    ensures
        match r {
            Some(x) => entry_lookup(es@, key@) == Some(*x),
            None => entry_lookup(es@, key@) is None,
        },
{
    let mut i: usize = 0;
    assert(es@.skip(0) =~= es@);
    while i < es.len()
        invariant
            i <= es.len(),
            entry_lookup(es@, key@) == entry_lookup(es@.skip(i as int), key@),
        decreases es.len() - i,
    {
        proof {
            let t = es@.skip(i as int);
            assert(t.drop_first() =~= es@.skip(i + 1));
            assert(t[0] == es@[i as int]);
        }
        if str_eq(es[i].0.as_str(), key) {
            return Some(&es[i].1);
        }
        i = i + 1;
    }
    None
}

impl JsonValue {
    /// `Value::get(key)`.
    pub fn get(&self, key: &str) -> (r: Option<&JsonValue>)
        ensures
            match r {
                Some(x) => json_get(*self, key@) == Some(*x),
                None => json_get(*self, key@) is None,
            },
    {
        match self {
            JsonValue::Object(es) => lookup_entries(es, key),
            _ => None,
        }
    }

    /// `Value::as_str`.
    pub fn as_str(&self) -> (r: Option<&str>)
        ensures
            match r {
                Some(s) => json_as_str(*self) == Some(s@),
                None => json_as_str(*self) is None,
            },
    {
        match self {
            JsonValue::Str(s) => Some(s.as_str()),
            _ => None,
        }
    }

    /// `Value::as_i64`.
    pub fn as_i64(&self) -> (r: Option<i64>)
        ensures
            match r {
                Some(n) => json_as_i64(*self) == Some(n as int),
                None => json_as_i64(*self) is None,
            },
    {
        match self {
            JsonValue::PosInt(n) => if *n <= i64::MAX as u64 {
                Some(*n as i64)
            } else {
                None
            },
            JsonValue::NegInt(n) => Some(*n),
            _ => None,
        }
    }

    /// `Value::as_u64`.
    pub fn as_u64(&self) -> (r: Option<u64>)
        ensures
            match r {
                Some(n) => json_as_u64(*self) == Some(n as int),
                None => json_as_u64(*self) is None,
            },
    {
        match self {
            JsonValue::PosInt(n) => Some(*n),
            _ => None,
        }
    }
}

// ---------------------------------------------------------------------------
// Field readers
// ---------------------------------------------------------------------------

/// The field `key` read as an id: a non-negative integer that fits in a `u32`,
/// or a text that parses as one.
pub open spec fn spec_value_u32(v: JsonValue, key: Seq<char>) -> Option<int> {
    match json_get(v, key) {
        Some(f) => match json_as_u64(f) {
            Some(n) if n <= u32::MAX => Some(n),
            _ => match json_as_str(f) {
                Some(s) => match spec_u32_from_str(s) {
                    Ok(n) => Some(n),
                    Err(_) => None,
                },
                None => None,
            },
        },
        None => None,
    }
}

/// The field `key` when it is a text that is not blank (returned as it is, untrimmed).
pub open spec fn spec_value_string(v: JsonValue, key: Seq<char>) -> Option<Seq<char>> {
    match json_get(v, key) {
        Some(f) => match json_as_str(f) {
            Some(s) => if is_blank(s) {
                None
            } else {
                Some(s)
            },
            None => None,
        },
        None => None,
    }
}

/// Reads the field `key` as an id (see `spec_value_u32`).
pub fn value_u32(value: &JsonValue, key: &str) -> (r: Option<u32>)
    ensures
        match r {
            Some(n) => spec_value_u32(*value, key@) == Some(n as int),
            None => spec_value_u32(*value, key@) is None,
        },
{
    match value.get(key) {
        Some(field) => {
            match field.as_u64() {
                Some(n) if n <= u32::MAX as u64 => {
                    return Some(n as u32);
                },
                _ => {},
            }
            match field.as_str() {
                Some(s) => match u32_from_str(s) {
                    Ok(n) => Some(n),
                    Err(_) => None,
                },
                None => None,
            }
        },
        None => None,
    }
}

/// Reads the field `key` when it is a non-blank text.
pub fn value_string(value: &JsonValue, key: &str) -> (r: Option<String>)
    ensures
        match r {
            Some(s) => spec_value_string(*value, key@) == Some(s@),
            None => spec_value_string(*value, key@) is None,
        },
{
    match value.get(key) {
        Some(field) => match field.as_str() {
            Some(s) => {
                let v = to_chars(s);
                if blank(&v) {
                    None
                } else {
                    Some(owned(s))
                }
            },
            None => None,
        },
        None => None,
    }
}

/// The signed-in user's id: the first of the fields `id`, `funcionario_id`, `sub`
/// that reads as an id.
pub open spec fn spec_user_id(user: Option<JsonValue>) -> Option<int> {
    match user {
        None => None,
        Some(u) => if spec_value_u32(u, "id"@) is Some {
            spec_value_u32(u, "id"@)
        } else if spec_value_u32(u, "funcionario_id"@) is Some {
            spec_value_u32(u, "funcionario_id"@)
        } else {
            spec_value_u32(u, "sub"@)
        },
    }
}

/// The signed-in user's name: the first of the fields `nome`, `name`, `usuario`
/// that is a non-blank text.
pub open spec fn spec_user_name(user: Option<JsonValue>) -> Option<Seq<char>> {
    match user {
        None => None,
        Some(u) => if spec_value_string(u, "nome"@) is Some {
            spec_value_string(u, "nome"@)
        } else if spec_value_string(u, "name"@) is Some {
            spec_value_string(u, "name"@)
        } else {
            spec_value_string(u, "usuario"@)
        },
    }
}

pub fn user_id(user: Option<JsonValue>) -> (r: Option<u32>)
    ensures
        match r {
            Some(n) => spec_user_id(user) == Some(n as int),
            None => spec_user_id(user) is None,
        },
{
    match user {
        None => None,
        Some(u) => {
            let a = value_u32(&u, "id");
            if a.is_some() {
                return a;
            }
            let b = value_u32(&u, "funcionario_id");
            if b.is_some() {
                return b;
            }
            value_u32(&u, "sub")
        },
    }
}

pub fn user_name(user: Option<JsonValue>) -> (r: Option<String>)
    ensures
        match r {
            Some(s) => spec_user_name(user) == Some(s@),
            None => spec_user_name(user) is None,
        },
{
    match user {
        None => None,
        Some(u) => {
            let a = value_string(&u, "nome");
            if a.is_some() {
                return a;
            }
            let b = value_string(&u, "name");
            if b.is_some() {
                return b;
            }
            value_string(&u, "usuario")
        },
    }
}

/// The first of `keys` whose field is a text, that text trimmed; nothing when that
/// trimmed text is empty or no such field exists.
pub open spec fn spec_read_text(user: JsonValue, keys: Seq<&str>) -> Option<Seq<char>>
    decreases keys.len(),
{
    if keys.len() == 0 {
        None
    } else {
        match json_get(user, keys[0]@) {
            Some(JsonValue::Str(s)) => if trim(s@).len() == 0 {
                None
            } else {
                Some(trim(s@))
            },
            _ => spec_read_text(user, keys.drop_first()),
        }
    }
}

/// The first of `keys` whose field is a text or an integer that fits in an `i64`,
/// as text.
pub open spec fn spec_read_number_text(user: JsonValue, keys: Seq<&str>) -> Option<Seq<char>>
    decreases keys.len(),
{
    if keys.len() == 0 {
        None
    } else {
        match json_get(user, keys[0]@) {
            Some(f) => match json_as_str(f) {
                Some(s) => Some(s),
                None => match json_as_i64(f) {
                    Some(n) => Some(signed_decimal(n)),
                    None => spec_read_number_text(user, keys.drop_first()),
                },
            },
            None => spec_read_number_text(user, keys.drop_first()),
        }
    }
}

/// Reads the first text field among `keys` (see `spec_read_text`).
pub fn read_text(user: &JsonValue, keys: &[&str]) -> (r: Option<String>)
    ensures
        match r {
            Some(s) => spec_read_text(*user, keys@) == Some(s@),
            None => spec_read_text(*user, keys@) is None,
        },
{
    let mut i: usize = 0;
    assert(keys@.skip(0) =~= keys@);
    while i < keys.len()
        invariant
            i <= keys.len(),
            spec_read_text(*user, keys@) == spec_read_text(*user, keys@.skip(i as int)),
        decreases keys.len() - i,
    {
        proof {
            let t = keys@.skip(i as int);
            assert(t.drop_first() =~= keys@.skip(i + 1));
            assert(t[0] == keys@[i as int]);
        }
        match user.get(keys[i]) {
            Some(JsonValue::Str(s)) => {
                let v = to_chars(s.as_str());
                let t = trim_chars(&v);
                if t.len() == 0 {
                    return None;
                } else {
                    return Some(from_chars(&t));
                }
            },
            _ => {},
        }
        i = i + 1;
    }
    None
}

/// Reads the first text or integer field among `keys` as text (see `spec_read_number_text`).
pub fn read_number_text(user: &JsonValue, keys: &[&str]) -> (r: Option<String>)
    ensures
        match r {
            Some(s) => spec_read_number_text(*user, keys@) == Some(s@),
            None => spec_read_number_text(*user, keys@) is None,
        },
{
    let mut i: usize = 0;
    assert(keys@.skip(0) =~= keys@);
    while i < keys.len()
        invariant
            i <= keys.len(),
            spec_read_number_text(*user, keys@) == spec_read_number_text(
                *user,
                keys@.skip(i as int),
            ),
        decreases keys.len() - i,
    {
        proof {
            let t = keys@.skip(i as int);
            assert(t.drop_first() =~= keys@.skip(i + 1));
            assert(t[0] == keys@[i as int]);
        }
        match user.get(keys[i]) {
            Some(field) => {
                match field.as_str() {
                    Some(s) => {
                        return Some(owned(s));
                    },
                    None => {},
                }
                match field.as_i64() {
                    Some(n) => {
                        return Some(i64_to_string(n));
                    },
                    None => {},
                }
            },
            None => {},
        }
        i = i + 1;
    }
    None
}

// ---------------------------------------------------------------------------
// Lenient decoding of response fields
// ---------------------------------------------------------------------------

/// The value behind an optional reference.
pub open spec fn opt_value(v: Option<&JsonValue>) -> Option<JsonValue> {
    match v {
        Some(x) => Some(*x),
        None => None,
    }
}

/// The text of a number as `serde_json` writes it.
pub open spec fn number_text(v: JsonValue) -> Seq<char> {
    match v {
        JsonValue::PosInt(n) => decimal(n as nat),
        JsonValue::NegInt(n) => signed_decimal(n as int),
        JsonValue::Float(t) => t@,
        _ => Seq::empty(),
    }
}

/// The first of `keys` present in the object entries `es`.
pub open spec fn first_present(es: Seq<(String, JsonValue)>, keys: Seq<&str>) -> Option<JsonValue>
    decreases keys.len(),
{
    if keys.len() == 0 {
        None
    } else {
        match entry_lookup(es, keys[0]@) {
            Some(f) => Some(f),
            None => first_present(es, keys.drop_first()),
        }
    }
}

/// A field decoded leniently into a text: texts as they are, numbers and booleans as
/// their text, an object as its first field among `object_keys` when that field is a
/// text (otherwise empty), anything else (missing, null, arrays) as the empty text.
pub open spec fn spec_string_or_default(value: Option<JsonValue>, object_keys: Seq<&str>) -> Seq<
    char,
> {
    match value {
        Some(JsonValue::Str(s)) => s@,
        Some(JsonValue::PosInt(n)) => number_text(JsonValue::PosInt(n)),
        Some(JsonValue::NegInt(n)) => number_text(JsonValue::NegInt(n)),
        Some(JsonValue::Float(t)) => t@,
        Some(JsonValue::Bool(b)) => if b {
            "true"@
        } else {
            "false"@
        },
        Some(JsonValue::Object(es)) => match first_present(es@, object_keys) {
            Some(JsonValue::Str(s)) => s@,
            _ => Seq::empty(),
        },
        _ => Seq::empty(),
    }
}

/// Decodes a field leniently into a text (see `spec_string_or_default`).
pub fn string_or_default(value: Option<&JsonValue>, object_keys: &[&str]) -> (r: String)
    ensures
        r@ == spec_string_or_default(opt_value(value), object_keys@),
{
    match value {
        Some(JsonValue::Str(s)) => owned(s.as_str()),
        Some(JsonValue::PosInt(n)) => u64_to_string(*n),
        Some(JsonValue::NegInt(n)) => i64_to_string(*n),
        Some(JsonValue::Float(t)) => owned(t.as_str()),
        Some(JsonValue::Bool(b)) => if *b {
            owned("true")
        } else {
            owned("false")
        },
        Some(JsonValue::Object(es)) => {
            let mut i: usize = 0;
            assert(object_keys@.skip(0) =~= object_keys@);
            while i < object_keys.len()
                invariant
                    i <= object_keys.len(),
                    opt_value(value) == Some(JsonValue::Object(*es)),
                    first_present(es@, object_keys@) == first_present(
                        es@,
                        object_keys@.skip(i as int),
                    ),
                decreases object_keys.len() - i,
            {
                proof {
                    let t = object_keys@.skip(i as int);
                    assert(t.drop_first() =~= object_keys@.skip(i + 1));
                    assert(t[0] == object_keys@[i as int]);
                }
                let found = lookup_entries(es, object_keys[i]);
                match found {
                    Some(f) => {
                        proof {
                            assert(first_present(es@, object_keys@.skip(i as int)) == Some(*f));
                        }
                        match f {
                            JsonValue::Str(s) => {
                                return owned(s.as_str());
                            },
                            _ => {
                                return String::new();
                            },
                        }
                    },
                    None => {},
                }
                i = i + 1;
            }
            String::new()
        },
        Some(_) => String::new(),
        None => String::new(),
    }
}

/// A field decoded leniently into an optional id: a non-negative integer that fits
/// in a `u32`, or a non-blank text that parses (after trimming) as one; missing,
/// null and other values give nothing. Other numbers and texts that do not parse are
/// errors, with the message the decoder reports.
pub open spec fn spec_option_u32(value: Option<JsonValue>) -> Result<Option<int>, Seq<char>> {
    match value {
        Some(JsonValue::PosInt(n)) => if n <= u32::MAX {
            Ok(Some(n as int))
        } else {
            Err("valor numerico invalido"@)
        },
        Some(JsonValue::NegInt(_)) => Err("valor numerico invalido"@),
        Some(JsonValue::Float(_)) => Err("valor numerico invalido"@),
        Some(JsonValue::Str(s)) => if is_blank(s@) {
            Ok(None)
        } else {
            match spec_u32_from_str(trim(s@)) {
                Ok(n) => Ok(Some(n)),
                Err(k) => Err(int_error_message(k)),
            }
        },
        _ => Ok(None),
    }
}

/// Decodes a field leniently into an optional id (see `spec_option_u32`).
pub fn option_u32(value: Option<&JsonValue>) -> (r: Result<Option<u32>, &'static str>)
    ensures
        match r {
            Ok(Some(n)) => spec_option_u32(opt_value(value)) == Ok::<
                Option<int>,
                Seq<char>,
            >(Some(n as int)),
            Ok(None) => spec_option_u32(opt_value(value)) == Ok::<
                Option<int>,
                Seq<char>,
            >(None),
            Err(m) => spec_option_u32(opt_value(value)) == Err::<
                Option<int>,
                Seq<char>,
            >(m@),
        },
{
    match value {
        Some(JsonValue::PosInt(n)) => if *n <= u32::MAX as u64 {
            Ok(Some(*n as u32))
        } else {
            Err("valor numerico invalido")
        },
        Some(JsonValue::NegInt(_)) => Err("valor numerico invalido"),
        Some(JsonValue::Float(_)) => Err("valor numerico invalido"),
        Some(JsonValue::Str(s)) => {
            let v = to_chars(s.as_str());
            let t = trim_chars(&v);
            if t.len() == 0 {
                Ok(None)
            } else {
                let ts = from_chars(&t);
                match u32_from_str(ts.as_str()) {
                    Ok(n) => Ok(Some(n)),
                    Err(k) => Err(k.message()),
                }
            }
        },
        _ => Ok(None),
    }
}

/// A group field: an integer is taken as `i32` (truncating, as `as i32` does); a
/// text must parse as an `i32`.
pub open spec fn spec_group_of(f: JsonValue) -> Option<i32> {
    match json_as_i64(f) {
        Some(g) => Some(g as i32),
        None => match json_as_str(f) {
            Some(s) => match spec_i32_from_str(s) {
                Ok(g) => Some(g as i32),
                Err(_) => None,
            },
            None => None,
        },
    }
}

pub fn group_of(f: &JsonValue) -> (r: Option<i32>)
    ensures
        r == spec_group_of(*f),
{
    match f.as_i64() {
        Some(g) => Some(g as i32),
        None => match f.as_str() {
            Some(s) => match i32_from_str(s) {
                Ok(g) => Some(g),
                Err(_) => None,
            },
            None => None,
        },
    }
}

/// An id field is read from a non-negative integer that fits in a `u32`, or from a
/// text that parses as a `u32`; a missing field reads as no id.
pub proof fn law_value_u32_reads_ids(v: JsonValue, key: Seq<char>)
    ensures
        json_get(v, key) matches Some(JsonValue::PosInt(n)) ==> (n <= u32::MAX ==> spec_value_u32(v, key)
            == Some(n as int)),
        json_get(v, key) matches Some(JsonValue::Str(t)) ==> (spec_u32_from_str(t@) is Ok ==> spec_value_u32(
            v,
            key,
        ) == Some(spec_u32_from_str(t@)->Ok_0)),
        json_get(v, key) matches Some(JsonValue::Str(t)) ==> (spec_u32_from_str(t@) is Err ==> spec_value_u32(
            v,
            key,
        ) is None),
        json_get(v, key) is None ==> spec_value_u32(v, key) is None,
        spec_value_u32(v, key) matches Some(n) ==> 0 <= n <= u32::MAX,
{
    if let Some(JsonValue::Str(t)) = json_get(v, key) {
        lemma_parse_unsigned_bounds(t@, u32::MAX as int);
    }
}

/// A name field is read from a text that is not blank, as it is.
pub proof fn law_value_string_reads_names(v: JsonValue, key: Seq<char>)
    ensures
        json_get(v, key) matches Some(JsonValue::Str(t)) ==> (trim(t@).len() > 0 ==> spec_value_string(v, key)
            == Some(t@)),
        json_get(v, key) matches Some(JsonValue::Str(t)) ==> (trim(t@).len() == 0 ==> spec_value_string(v, key)
            is None),
        json_get(v, key) is None ==> spec_value_string(v, key) is None,
{
}

/// The signed-in user's id is the first of `id`, `funcionario_id` and `sub` that
/// reads as an id; without a user record there is none.
pub proof fn law_user_id_fields(u: JsonValue)
    ensures
        spec_user_id(None) is None,
        spec_value_u32(u, "id"@) matches Some(n) ==> spec_user_id(Some(u)) == Some(n),
        spec_value_u32(u, "id"@) is None ==> (spec_value_u32(u, "funcionario_id"@) matches Some(n)
            ==> spec_user_id(Some(u)) == Some(n)),
        spec_value_u32(u, "id"@) is None && spec_value_u32(u, "funcionario_id"@) is None
            ==> spec_user_id(Some(u)) == spec_value_u32(u, "sub"@),
        spec_user_id(Some(u)) matches Some(n) ==> spec_user_id(Some(u)) == spec_value_u32(u, "id"@)
            || spec_user_id(Some(u)) == spec_value_u32(u, "funcionario_id"@) || spec_user_id(Some(u))
            == spec_value_u32(u, "sub"@),
{
}

/// A user record whose only id is the text `sub` of a number (as tokens carry it)
/// gives that number as the user's id.
pub proof fn law_user_id_from_sub(u: JsonValue, t: String)
    requires
        json_get(u, "id"@) is None,
        json_get(u, "funcionario_id"@) is None,
        json_get(u, "sub"@) == Some(JsonValue::Str(t)),
        spec_u32_from_str(t@) is Ok,
    ensures
        spec_user_id(Some(u)) == Some(spec_u32_from_str(t@)->Ok_0),
{
}

/// The signed-in user's name is the first of `nome`, `name` and `usuario` that is a
/// non-blank text; without a user record there is none.
pub proof fn law_user_name_fields(u: JsonValue)
    ensures
        spec_user_name(None) is None,
        spec_value_string(u, "nome"@) matches Some(n) ==> spec_user_name(Some(u)) == Some(n),
        spec_value_string(u, "nome"@) is None ==> (spec_value_string(u, "name"@) matches Some(n)
            ==> spec_user_name(Some(u)) == Some(n)),
        spec_value_string(u, "nome"@) is None && spec_value_string(u, "name"@) is None
            ==> spec_user_name(Some(u)) == spec_value_string(u, "usuario"@),
{
}

/// The first of `keys` present in an object is the `k`-th when none before it is
/// present and it is.
proof fn lemma_first_present_at(es: Seq<(String, JsonValue)>, keys: Seq<&str>, k: int)
    requires
        0 <= k < keys.len(),
        forall|j: int| 0 <= j < k ==> entry_lookup(es, #[trigger] keys[j]@) is None,
        entry_lookup(es, keys[k]@) is Some,
    ensures
        first_present(es, keys) == entry_lookup(es, keys[k]@),
    decreases k,
{
    if k > 0 {
        let rest = keys.drop_first();
        assert(entry_lookup(es, keys[0]@) is None);
        assert forall|j: int| 0 <= j < k - 1 implies entry_lookup(es, #[trigger] rest[j]@) is None by {
            assert(rest[j] == keys[j + 1]);
        }
        assert(rest[k - 1] == keys[k]);
        lemma_first_present_at(es, rest, k - 1);
    }
}

/// A field decoded as text keeps texts, writes numbers and booleans as text, reads
/// an object's first present name field when it is a text, and is empty otherwise.
pub proof fn law_string_or_default(value: Option<JsonValue>, keys: Seq<&str>, k: int)
    ensures
        value matches Some(JsonValue::Str(t)) ==> spec_string_or_default(value, keys) == t@,
        value matches Some(JsonValue::PosInt(n)) ==> spec_string_or_default(value, keys) == decimal(n as nat),
        value matches Some(JsonValue::NegInt(n)) ==> spec_string_or_default(value, keys) == signed_decimal(
            n as int,
        ),
        value matches Some(JsonValue::Float(t)) ==> spec_string_or_default(value, keys) == t@,
        value == Some(JsonValue::Bool(true)) ==> spec_string_or_default(value, keys) == "true"@,
        value == Some(JsonValue::Bool(false)) ==> spec_string_or_default(value, keys) == "false"@,
        value is None || value == Some(JsonValue::Null) ==> spec_string_or_default(value, keys) == Seq::<
            char,
        >::empty(),
        value matches Some(JsonValue::Object(es)) ==> (0 <= k < keys.len() && (forall|j: int|
            0 <= j < k ==> entry_lookup(es@, #[trigger] keys[j]@) is None) ==> (entry_lookup(es@, keys[k]@) matches Some(
            JsonValue::Str(t),
        ) ==> spec_string_or_default(value, keys) == t@)),
{
    if let Some(JsonValue::Object(es)) = value {
        if 0 <= k < keys.len() && (forall|j: int| 0 <= j < k ==> entry_lookup(es@, #[trigger] keys[j]@) is None) {
            if entry_lookup(es@, keys[k]@) is Some {
                lemma_first_present_at(es@, keys, k);
            }
        }
    }
}

/// A field decoded as an optional id takes a non-negative integer that fits a `u32`
/// and a non-blank text that parses (trimmed) as one; missing, null and blank give
/// no id; other numbers and unreadable texts are errors.
pub proof fn law_option_u32(value: Option<JsonValue>)
    ensures
        value matches Some(JsonValue::PosInt(n)) ==> (n <= u32::MAX ==> spec_option_u32(value) == Ok::<
            Option<int>,
            Seq<char>,
        >(Some(n as int))),
        value matches Some(JsonValue::PosInt(n)) ==> (n > u32::MAX ==> spec_option_u32(value) is Err),
        value matches Some(JsonValue::NegInt(_)) ==> spec_option_u32(value) is Err,
        value matches Some(JsonValue::Float(_)) ==> spec_option_u32(value) is Err,
        value matches Some(JsonValue::Str(t)) ==> (trim(t@).len() == 0 ==> spec_option_u32(value) == Ok::<
            Option<int>,
            Seq<char>,
        >(None)),
        value matches Some(JsonValue::Str(t)) ==> (trim(t@).len() > 0 && spec_u32_from_str(trim(t@)) is Ok
            ==> spec_option_u32(value) == Ok::<Option<int>, Seq<char>>(Some(spec_u32_from_str(trim(t@))->Ok_0))),
        value matches Some(JsonValue::Str(t)) ==> (trim(t@).len() > 0 && spec_u32_from_str(trim(t@)) is Err
            ==> spec_option_u32(value) is Err),
        value is None || value == Some(JsonValue::Null) ==> spec_option_u32(value) == Ok::<
            Option<int>,
            Seq<char>,
        >(None),
{
}

/// A profile text is read from the first of `keys` whose field is a text: its
/// trimmed text when that is not blank, and nothing when it is blank.
pub proof fn law_read_text_first(user: JsonValue, keys: Seq<&str>, k: int)
    requires
        0 <= k < keys.len(),
        forall|j: int| 0 <= j < k ==> !(json_get(user, #[trigger] keys[j]@) matches Some(JsonValue::Str(_))),
    ensures
        json_get(user, keys[k]@) matches Some(JsonValue::Str(t)) ==> spec_read_text(user, keys) == (if trim(
            t@,
        ).len() == 0 {
            None
        } else {
            Some(trim(t@))
        }),
    decreases k,
{
    if k > 0 {
        let rest = keys.drop_first();
        assert(!(json_get(user, keys[0]@) matches Some(JsonValue::Str(_))));
        assert forall|j: int| 0 <= j < k - 1 implies !(json_get(user, #[trigger] rest[j]@) matches Some(
            JsonValue::Str(_),
        )) by {
            assert(rest[j] == keys[j + 1]);
        }
        assert(rest[k - 1] == keys[k]);
        law_read_text_first(user, rest, k - 1);
    }
}

/// A profile number is read from the first of `keys` whose field is a text (as it
/// is) or an integer that fits an `i64` (in decimal).
pub proof fn law_read_number_text_first(user: JsonValue, keys: Seq<&str>, k: int)
    requires
        0 <= k < keys.len(),
        forall|j: int|
            0 <= j < k ==> (json_get(user, #[trigger] keys[j]@) matches Some(f) ==> json_as_str(f) is None
                && json_as_i64(f) is None),
    ensures
        json_get(user, keys[k]@) matches Some(JsonValue::Str(t)) ==> spec_read_number_text(user, keys) == Some(t@),
        json_get(user, keys[k]@) matches Some(JsonValue::PosInt(n)) ==> (n <= i64::MAX ==> spec_read_number_text(
            user,
            keys,
        ) == Some(decimal(n as nat))),
        json_get(user, keys[k]@) matches Some(JsonValue::NegInt(n)) ==> spec_read_number_text(user, keys) == Some(
            signed_decimal(n as int),
        ),
    decreases k,
{
    if k > 0 {
        let rest = keys.drop_first();
        assert(json_get(user, keys[0]@) matches Some(f) ==> json_as_str(f) is None && json_as_i64(f) is None);
        assert forall|j: int|
            0 <= j < k - 1 implies (json_get(user, #[trigger] rest[j]@) matches Some(f) ==> json_as_str(f) is None
            && json_as_i64(f) is None) by {
            assert(rest[j] == keys[j + 1]);
        }
        assert(rest[k - 1] == keys[k]);
        law_read_number_text_first(user, rest, k - 1);
    }
}

} // verus!
