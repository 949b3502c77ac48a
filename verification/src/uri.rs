//! URI component encoding (the `encodeURIComponent` of ECMAScript) and query strings.
use vstd::prelude::*;
use vstd::utf8::{
    encode_scalar, encode_utf8, has_width_1_encoding, has_width_2_encoding, has_width_3_encoding,
    has_width_4_encoding,
};
use crate::number::{decimal, digit_char, i32_to_string, signed_decimal, u32_to_string, usize_to_string};
use crate::text::{is_ascii_alphanumeric, ascii_alphanumeric, occurs_at, push_str, string_push, to_chars};

verus! {

/// The characters that `encodeURIComponent` leaves as they are.
pub open spec fn uri_unreserved(c: char) -> bool {
    ||| is_ascii_alphanumeric(c)
    ||| c == '-'
    ||| c == '_'
    ||| c == '.'
    ||| c == '!'
    ||| c == '~'
    ||| c == '*'
    ||| c == '\''
    ||| c == '('
    ||| c == ')'
}

/// The upper-case hexadecimal digit for `0 <= d < 16`.
pub open spec fn hex_digit(d: int) -> char {
    if d < 10 {
        digit_char(d)
    } else {
        (d + 55) as char
    }
}

/// `%XY` for one byte.
pub open spec fn percent_byte(b: u8) -> Seq<char> {
    seq!['%', hex_digit(b as int / 16), hex_digit(b as int % 16)]
}

pub open spec fn percent_bytes(bs: Seq<u8>) -> Seq<char>
    decreases bs.len(),
{
    if bs.len() == 0 {
        Seq::empty()
    } else {
        percent_byte(bs[0]) + percent_bytes(bs.drop_first())
    }
}

/// One character as `encodeURIComponent` writes it: unreserved characters as
/// they are, every other one as the `%XY` escapes of its UTF-8 bytes.
pub open spec fn encode_char(c: char) -> Seq<char> {
    if uri_unreserved(c) {
        seq![c]
    } else {
        percent_bytes(encode_scalar(c as u32))
    }
}

/// `encodeURIComponent(s)`.
pub open spec fn encode_uri_component(s: Seq<char>) -> Seq<char>
    decreases s.len(),
{
    if s.len() == 0 {
        Seq::empty()
    } else {
        encode_uri_component(s.drop_last()) + encode_char(s.last())
    }
}

/// The upper-case hexadecimal digit of `0 <= d < 16`, written out.
pub open spec fn upper_hex(d: int) -> char {
    if d < 10 {
        (d + 48) as char
    } else {
        (d + 55) as char
    }
}

/// `out` holds, from position `3 * i`, the escape `%XY` of the byte `b`.
pub open spec fn escape_at(out: Seq<char>, i: int, b: u8) -> bool {
    out[3 * i] == '%' && out[3 * i + 1] == upper_hex(b as int / 16) && out[3 * i + 2] == upper_hex(b as int % 16)
}

proof fn lemma_percent_bytes_shape(bs: Seq<u8>)
    ensures
        percent_bytes(bs).len() == 3 * bs.len(),
        forall|i: int| 0 <= i < bs.len() ==> #[trigger] escape_at(percent_bytes(bs), i, bs[i]),
    decreases bs.len(),
{
    if bs.len() > 0 {
        let rest = bs.drop_first();
        lemma_percent_bytes_shape(rest);
        let head = percent_byte(bs[0]);
        let out = percent_bytes(bs);
        assert(out == head + percent_bytes(rest));
        assert forall|i: int| 0 <= i < bs.len() implies #[trigger] escape_at(out, i, bs[i]) by {
            if i == 0 {
                assert(out[0] == head[0]);
                assert(out[1] == head[1]);
                assert(out[2] == head[2]);
            } else {
                assert(bs[i] == rest[i - 1]);
                assert(escape_at(percent_bytes(rest), i - 1, rest[i - 1]));
                assert(out[3 * i] == percent_bytes(rest)[3 * (i - 1)]);
                assert(out[3 * i + 1] == percent_bytes(rest)[3 * (i - 1) + 1]);
                assert(out[3 * i + 2] == percent_bytes(rest)[3 * (i - 1) + 2]);
            }
        }
    }
}

proof fn lemma_encode_concat(s: Seq<char>, t: Seq<char>)
    ensures
        encode_uri_component(s + t) == encode_uri_component(s) + encode_uri_component(t),
    decreases t.len(),
{
    if t.len() == 0 {
        assert(s + t =~= s);
        assert(encode_uri_component(s) + Seq::<char>::empty() =~= encode_uri_component(s));
    } else {
        lemma_encode_concat(s, t.drop_last());
        assert((s + t).drop_last() =~= s + t.drop_last());
        assert((s + t).last() == t.last());
        assert(encode_uri_component(s) + encode_uri_component(t.drop_last()) + encode_char(t.last())
            =~= encode_uri_component(s) + (encode_uri_component(t.drop_last()) + encode_char(t.last())));
    }
}

/// `encodeURIComponent` encodes text character by character: the letters, digits
/// and `- _ . ! ~ * ' ( )` stay as they are, and every other character becomes `%`
/// and two upper-case hexadecimal digits for each byte of its UTF-8 encoding.
pub proof fn law_encode_uri_component(s: Seq<char>, t: Seq<char>, c: char)
    ensures
        encode_uri_component(s + t) == encode_uri_component(s) + encode_uri_component(t),
        encode_uri_component(Seq::empty()) == Seq::<char>::empty(),
        is_ascii_alphanumeric(c) || c == '-' || c == '_' || c == '.' || c == '!' || c == '~' || c == '*' || c
            == '\'' || c == '(' || c == ')' ==> encode_uri_component(seq![c]) == seq![c],
        !(is_ascii_alphanumeric(c) || c == '-' || c == '_' || c == '.' || c == '!' || c == '~' || c == '*' || c
            == '\'' || c == '(' || c == ')') ==> ({
            let bytes = encode_utf8(seq![c]);
            let out = encode_uri_component(seq![c]);
            &&& out.len() == 3 * bytes.len()
            &&& forall|i: int| 0 <= i < bytes.len() ==> #[trigger] escape_at(out, i, bytes[i])
        }),
{
    lemma_encode_concat(s, t);
    let one = seq![c];
    assert(one.drop_last() =~= Seq::<char>::empty());
    assert(one.last() == c);
    let e = Seq::<char>::empty();
    assert(encode_uri_component(e) == e);
    assert(encode_uri_component(one) == encode_uri_component(one.drop_last()) + encode_char(one.last()));
    assert(encode_uri_component(one) =~= encode_char(c));
    assert(encode_utf8(one) =~= encode_scalar(c as u32) + encode_utf8(one.drop_first()));
    assert(one.drop_first() =~= Seq::<char>::empty());
    assert(encode_utf8(one) =~= encode_scalar(c as u32));
    lemma_percent_bytes_shape(encode_scalar(c as u32));
    assert forall|d: int| 0 <= d < 16 implies hex_digit(d) == upper_hex(d) by {}
}

/// A character that can appear in the output of `encodeURIComponent`.
pub open spec fn uri_safe(c: char) -> bool {
    uri_unreserved(c) || c == '%'
}

fn hex(d: u8) -> (c: char)
    requires
        d < 16,
    ensures
        c == hex_digit(d as int),
        uri_unreserved(c),
{
    match d {
        0 => '0',
        1 => '1',
        2 => '2',
        3 => '3',
        4 => '4',
        5 => '5',
        6 => '6',
        7 => '7',
        8 => '8',
        9 => '9',
        10 => 'A',
        11 => 'B',
        12 => 'C',
        13 => 'D',
        14 => 'E',
        _ => 'F',
    }
}

fn push_percent(s: &mut String, b: u8)
    ensures
        final(s)@ == old(s)@ + percent_byte(b),
{
    string_push(s, '%');
    string_push(s, hex(b / 16));
    string_push(s, hex(b % 16));
    assert(final(s)@ =~= old(s)@ + percent_byte(b));
}

/// The UTF-8 bytes of `c`.
fn utf8_bytes(c: char) -> (r: Vec<u8>)
    ensures
        r@ == encode_scalar(c as u32),
{
    let scalar = c as u32;
    let mut r: Vec<u8> = Vec::new();
    if scalar <= 0x7F {
        assert(has_width_1_encoding(scalar));
        r.push((scalar & 0x7F) as u8);
    } else if scalar <= 0x7FF {
        assert(has_width_2_encoding(scalar));
        r.push(0xC0 | ((scalar >> 6) & 0x1F) as u8);
        r.push(0x80 | (scalar & 0x3F) as u8);
    } else if scalar <= 0xFFFF {
        assert(has_width_3_encoding(scalar));
        r.push(0xE0 | ((scalar >> 12) & 0x0F) as u8);
        r.push(0x80 | ((scalar >> 6) & 0x3F) as u8);
        r.push(0x80 | (scalar & 0x3F) as u8);
    } else {
        assert(has_width_4_encoding(scalar));
        r.push(0xF0 | ((scalar >> 18) & 0x7) as u8);
        r.push(0x80 | ((scalar >> 12) & 0x3F) as u8);
        r.push(0x80 | ((scalar >> 6) & 0x3F) as u8);
        r.push(0x80 | (scalar & 0x3F) as u8);
    }
    assert(r@ =~= encode_scalar(c as u32));
    r
}

fn uri_unreserved_exec(c: char) -> (r: bool)
    ensures
        r == uri_unreserved(c),
{
    ascii_alphanumeric(c) || c == '-' || c == '_' || c == '.' || c == '!' || c == '~' || c == '*'
        || c == '\'' || c == '(' || c == ')'
}

fn push_encoded_char(s: &mut String, c: char)
    ensures
        final(s)@ == old(s)@ + encode_char(c),
{
    if uri_unreserved_exec(c) {
        string_push(s, c);
        assert(final(s)@ =~= old(s)@ + encode_char(c));
    } else {
        let bytes = utf8_bytes(c);
        let mut i: usize = 0;
        assert(bytes@.skip(0) =~= bytes@);
        while i < bytes.len()
            invariant
                i <= bytes.len(),
                bytes@ == encode_scalar(c as u32),
                s@ + percent_bytes(bytes@.skip(i as int)) == old(s)@ + encode_char(c),
            decreases bytes.len() - i,
        {
            proof {
                let rest = bytes@.skip(i as int);
                assert(rest.drop_first() =~= bytes@.skip(i + 1));
                assert(rest[0] == bytes@[i as int]);
            }
            push_percent(s, bytes[i]);
            i = i + 1;
            proof {
                let before = bytes@.skip(i - 1);
                assert(s@ + percent_bytes(bytes@.skip(i as int)) =~= old(s)@ + encode_char(c)) by {
                    assert(percent_bytes(before) == percent_byte(bytes@[i - 1]) + percent_bytes(
                        bytes@.skip(i as int),
                    ));
                }
            }
        }
        assert(bytes@.skip(bytes.len() as int) =~= Seq::<u8>::empty());
        assert(s@ =~= s@ + percent_bytes(bytes@.skip(bytes.len() as int)));
    }
}

/// Appends `encodeURIComponent(value)`.
pub fn push_encoded(s: &mut String, value: &str)
    ensures
        final(s)@ == old(s)@ + encode_uri_component(value@),
{
    let v = to_chars(value);
    let mut i: usize = 0;
    while i < v.len()
        invariant
            i <= v.len(),
            v@ == value@,
            s@ == old(s)@ + encode_uri_component(v@.take(i as int)),
        decreases v.len() - i,
    {
        proof {
            assert(v@.take(i + 1).drop_last() =~= v@.take(i as int));
            assert(v@.take(i + 1).last() == v@[i as int]);
        }
        push_encoded_char(s, v[i]);
        i = i + 1;
        assert(s@ =~= old(s)@ + encode_uri_component(v@.take(i as int)));
    }
    assert(v@.take(v.len() as int) =~= v@);
}

/// `encodeURIComponent(value)`: the text with every character outside the
/// unreserved set written as the `%XY` escapes of its UTF-8 bytes.
pub fn encode_uri_component_str(value: &str) -> (r: String)
    ensures
        r@ == encode_uri_component(value@),
{
    let mut r = String::new();
    push_encoded(&mut r, value);
    assert(r@ =~= encode_uri_component(value@));
    r
}

proof fn lemma_percent_bytes_safe(bs: Seq<u8>)
    ensures
        forall|i: int| 0 <= i < percent_bytes(bs).len() ==> uri_safe(#[trigger] percent_bytes(bs)[i]),
    decreases bs.len(),
{
    if bs.len() > 0 {
        lemma_percent_bytes_safe(bs.drop_first());
        let head = percent_byte(bs[0]);
        let tail = percent_bytes(bs.drop_first());
        assert(uri_unreserved(hex_digit(bs[0] as int / 16)));
        assert(uri_unreserved(hex_digit(bs[0] as int % 16)));
        assert forall|i: int| 0 <= i < percent_bytes(bs).len() implies uri_safe(
            #[trigger] percent_bytes(bs)[i],
        ) by {
            if i >= 3 {
                assert(percent_bytes(bs)[i] == tail[i - 3]);
            }
        }
    }
}

/// Every character that `encodeURIComponent` writes is unreserved or `%`, so an
/// encoded value never holds the `&`, `=`, `?` or `#` that delimit a query string.
pub proof fn law_encoded_is_uri_safe(s: Seq<char>)
    ensures
        forall|i: int| 0 <= i < encode_uri_component(s).len() ==> uri_safe(
            #[trigger] encode_uri_component(s)[i],
        ),
    decreases s.len(),
{
    if s.len() > 0 {
        law_encoded_is_uri_safe(s.drop_last());
        let pre = encode_uri_component(s.drop_last());
        let c = s.last();
        lemma_percent_bytes_safe(encode_scalar(c as u32));
        assert forall|i: int| 0 <= i < encode_uri_component(s).len() implies uri_safe(
            #[trigger] encode_uri_component(s)[i],
        ) by {
            if i >= pre.len() {
                assert(encode_uri_component(s)[i] == encode_char(c)[i - pre.len()]);
            } else {
                assert(encode_uri_component(s)[i] == pre[i]);
            }
        }
    }
}

// ---------------------------------------------------------------------------
// Query strings
// ---------------------------------------------------------------------------

/// The strings of `v` joined with `sep` between them.
pub open spec fn join(parts: Seq<Seq<char>>, sep: Seq<char>) -> Seq<char>
    decreases parts.len(),
{
    if parts.len() == 0 {
        Seq::empty()
    } else if parts.len() == 1 {
        parts[0]
    } else {
        join(parts.drop_last(), sep) + sep + parts.last()
    }
}

/// Joining at least two parts: the first part, the separator, then the others joined.
pub proof fn lemma_join_front(parts: Seq<Seq<char>>, sep: Seq<char>)
    requires
        parts.len() >= 2,
    ensures
        join(parts, sep) == parts[0] + sep + join(parts.drop_first(), sep),
    decreases parts.len(),
{
    let front = parts.drop_last();
    let rest = parts.drop_first();
    if parts.len() == 2 {
        assert(join(front, sep) == parts[0]);
        assert(join(rest, sep) == parts[1]);
    } else {
        lemma_join_front(front, sep);
        assert(front.drop_first() =~= rest.drop_last());
        assert(front[0] == parts[0]);
        assert(rest.last() == parts.last());
        assert(join(parts, sep) =~= parts[0] + sep + join(rest, sep));
    }
}

/// Every character of a join is one of the parts' or of the separator's.
pub proof fn lemma_join_chars(parts: Seq<Seq<char>>, sep: Seq<char>, ok: spec_fn(char) -> bool)
    requires
        forall|k: int, i: int| 0 <= k < parts.len() && 0 <= i < parts[k].len() ==> ok(#[trigger] parts[k][i]),
        forall|i: int| 0 <= i < sep.len() ==> ok(#[trigger] sep[i]),
    ensures
        forall|i: int| 0 <= i < join(parts, sep).len() ==> ok(#[trigger] join(parts, sep)[i]),
    decreases parts.len(),
{
    if parts.len() == 1 {
        assert forall|i: int| 0 <= i < join(parts, sep).len() implies ok(#[trigger] join(parts, sep)[i]) by {
            assert(ok(parts[0][i]));
        }
    } else if parts.len() > 1 {
        let front = parts.drop_last();
        assert forall|k: int, i: int| 0 <= k < front.len() && 0 <= i < front[k].len() implies ok(
            #[trigger] front[k][i],
        ) by {
            assert(front[k] == parts[k]);
        }
        lemma_join_chars(front, sep, ok);
        let j = join(front, sep);
        let last = parts.last();
        assert forall|i: int| 0 <= i < join(parts, sep).len() implies ok(#[trigger] join(parts, sep)[i]) by {
            if i < j.len() {
                assert(join(parts, sep)[i] == j[i]);
            } else if i < j.len() + sep.len() {
                assert(join(parts, sep)[i] == sep[i - j.len()]);
            } else {
                assert(join(parts, sep)[i] == last[i - j.len() - sep.len()]);
                assert(ok(parts[parts.len() - 1][i - j.len() - sep.len()]));
            }
        }
    }
}

/// A pattern without the separator character occurs in a join only inside a part.
pub proof fn lemma_join_no_occurrence(parts: Seq<Seq<char>>, c: char, pat: Seq<char>)
    requires
        forall|k: int, i: int| 0 <= k < parts.len() ==> !#[trigger] occurs_at(parts[k], pat, i),
        forall|j: int| 0 <= j < pat.len() ==> pat[j] != c,
        pat.len() > 0,
    ensures
        forall|i: int| !occurs_at(join(parts, seq![c]), pat, i),
    decreases parts.len(),
{
    if parts.len() == 1 {
        assert forall|i: int| !occurs_at(join(parts, seq![c]), pat, i) by {
            assert(!occurs_at(parts[0], pat, i));
        }
    } else if parts.len() > 1 {
        let front = parts.drop_last();
        assert forall|k: int, i: int| 0 <= k < front.len() implies !#[trigger] occurs_at(front[k], pat, i) by {
            assert(front[k] == parts[k]);
            assert(!occurs_at(parts[k], pat, i));
        }
        lemma_join_no_occurrence(front, c, pat);
        let j = join(front, seq![c]);
        let last = parts.last();
        let whole = join(parts, seq![c]);
        assert(whole == j + seq![c] + last);
        assert forall|i: int| !occurs_at(whole, pat, i) by {
            if occurs_at(whole, pat, i) {
                if i + pat.len() <= j.len() {
                    assert(j.subrange(i, i + pat.len()) =~= whole.subrange(i, i + pat.len()));
                    assert(occurs_at(j, pat, i));
                } else if i >= j.len() + 1 {
                    let m = i - j.len() - 1;
                    assert(last.subrange(m, m + pat.len()) =~= whole.subrange(i, i + pat.len()));
                    assert(!occurs_at(parts[parts.len() - 1], pat, m));
                } else {
                    let d = j.len() - i;
                    assert(whole.subrange(i, i + pat.len())[d] == whole[j.len() as int]);
                    assert(pat[d] == c);
                }
            }
        }
    }
}

/// What one part of a concatenation holds, the whole holds.
pub proof fn lemma_contains_concat<A>(a: Seq<A>, b: Seq<A>, x: A)
    ensures
        a.contains(x) ==> (a + b).contains(x),
        b.contains(x) ==> (a + b).contains(x),
{
    if a.contains(x) {
        let i = choose|i: int| 0 <= i < a.len() && a[i] == x;
        assert((a + b)[i] == x);
    }
    if b.contains(x) {
        let i = choose|i: int| 0 <= i < b.len() && b[i] == x;
        assert((a + b)[a.len() + i] == x);
    }
}

/// The characters of each string.
pub open spec fn views(v: Seq<String>) -> Seq<Seq<char>> {
    v.map_values(|s: String| s@)
}

/// One query parameter: `key=encodeURIComponent(value)`.
pub open spec fn query_param(key: Seq<char>, value: Seq<char>) -> Seq<char> {
    key + seq!['='] + encode_uri_component(value)
}

/// `base`, followed by `?` and the parameters joined with `&` when there are any.
pub open spec fn with_query(base: Seq<char>, query: Seq<Seq<char>>) -> Seq<char> {
    if query.len() == 0 {
        base
    } else {
        base + seq!['?'] + join(query, seq!['&'])
    }
}

/// Adds the parameter `key=value` (value URI-encoded) at the end of `query`.
pub fn append_query(query: &mut Vec<String>, key: &str, value: &str)
    ensures
        views(final(query)@) == views(old(query)@).push(query_param(key@, value@)),
{
    let mut item = String::new();
    push_str(&mut item, key);
    string_push(&mut item, '=');
    push_encoded(&mut item, value);
    assert(item@ =~= query_param(key@, value@));
    query.push(item);
    assert(views(final(query)@) =~= views(old(query)@).push(query_param(key@, value@)));
}

/// Appends `parts` joined with `sep`.
pub fn push_joined(s: &mut String, parts: &Vec<String>, sep: &str)
    ensures
        final(s)@ == old(s)@ + join(views(parts@), sep@),
{
    let mut i: usize = 0;
    while i < parts.len()
        invariant
            i <= parts.len(),
            s@ == old(s)@ + join(views(parts@.take(i as int)), sep@),
        decreases parts.len() - i,
    {
        let ghost before = s@;
        if i > 0 {
            push_str(s, sep);
        }
        push_str(s, parts[i].as_str());
        i = i + 1;
        proof {
            let t = views(parts@.take(i as int));
            assert(t.drop_last() =~= views(parts@.take(i - 1)));
            assert(t.last() == parts@[i - 1]@);
            if i == 1 {
                assert(views(parts@.take(0)) =~= Seq::<Seq<char>>::empty());
            }
            assert(s@ =~= old(s)@ + join(t, sep@));
        }
    }
    assert(parts@.take(parts.len() as int) =~= parts@);
}

/// `base` with the query parameters appended: `base?p1&p2...`, or `base` alone when
/// there are none.
pub fn endpoint_with_query(base: &str, query: Vec<String>) -> (r: String)
    ensures
        r@ == with_query(base@, views(query@)),
{
    let mut r = String::new();
    push_str(&mut r, base);
    if query.len() > 0 {
        string_push(&mut r, '?');
        push_joined(&mut r, &query, "&");
        proof {
            reveal_strlit("&");
            assert("&"@ =~= seq!['&']);
        }
    }
    assert(r@ =~= with_query(base@, views(query@)));
    r
}

/// The parameter `key` when there is a text, none otherwise.
pub open spec fn opt_text_param(key: Seq<char>, v: Option<String>) -> Seq<Seq<char>> {
    match v {
        Some(s) => seq![query_param(key, s@)],
        None => Seq::empty(),
    }
}

/// The parameter `key` with the number in decimal when there is one, none otherwise.
pub open spec fn opt_u32_param(key: Seq<char>, v: Option<u32>) -> Seq<Seq<char>> {
    match v {
        Some(n) => seq![query_param(key, decimal(n as nat))],
        None => Seq::empty(),
    }
}

/// The parameter `key` with the signed number in decimal when there is one.
pub open spec fn opt_i32_param(key: Seq<char>, v: Option<i32>) -> Seq<Seq<char>> {
    match v {
        Some(n) => seq![query_param(key, signed_decimal(n as int))],
        None => Seq::empty(),
    }
}

/// The paging parameters `skip` and `limit`.
pub open spec fn paging_params(skip: usize, limit: usize) -> Seq<Seq<char>> {
    seq![query_param("skip"@, decimal(skip as nat)), query_param("limit"@, decimal(limit as nat))]
}

/// Adds `key=value` when there is a value.
pub fn append_opt_text(query: &mut Vec<String>, key: &str, v: &Option<String>)
    ensures
        views(final(query)@) == views(old(query)@) + opt_text_param(key@, *v),
{
    match v {
        Some(s) => {
            append_query(query, key, s.as_str());
            assert(views(final(query)@) =~= views(old(query)@) + opt_text_param(key@, *v));
        },
        None => {
            assert(views(final(query)@) =~= views(old(query)@) + opt_text_param(key@, *v));
        },
    }
}

/// Adds `key=n` when there is a number.
pub fn append_opt_u32(query: &mut Vec<String>, key: &str, v: Option<u32>)
    ensures
        views(final(query)@) == views(old(query)@) + opt_u32_param(key@, v),
{
    match v {
        Some(n) => {
            let t = u32_to_string(n);
            append_query(query, key, t.as_str());
            assert(views(final(query)@) =~= views(old(query)@) + opt_u32_param(key@, v));
        },
        None => {
            assert(views(final(query)@) =~= views(old(query)@) + opt_u32_param(key@, v));
        },
    }
}

/// Adds `key=n` when there is a number.
pub fn append_opt_i32(query: &mut Vec<String>, key: &str, v: Option<i32>)
    ensures
        views(final(query)@) == views(old(query)@) + opt_i32_param(key@, v),
{
    match v {
        Some(n) => {
            let t = i32_to_string(n);
            append_query(query, key, t.as_str());
            assert(views(final(query)@) =~= views(old(query)@) + opt_i32_param(key@, v));
        },
        None => {
            assert(views(final(query)@) =~= views(old(query)@) + opt_i32_param(key@, v));
        },
    }
}

/// A new query holding the paging parameters.
pub fn paging_query(skip: usize, limit: usize) -> (query: Vec<String>)
    ensures
        views(query@) == paging_params(skip, limit),
{
    let mut query: Vec<String> = Vec::new();
    let s = usize_to_string(skip);
    append_query(&mut query, "skip", s.as_str());
    let l = usize_to_string(limit);
    append_query(&mut query, "limit", l.as_str());
    assert(views(query@) =~= paging_params(skip, limit));
    query
}

} // verus!
