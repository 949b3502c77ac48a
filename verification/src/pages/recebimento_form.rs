//! The payment form: reading the chosen comandas from the page's query string and
//! turning the typed lists into the selection request.
use vstd::prelude::*;
use crate::components::common::filter_fields::{clean_text, parse_u32, spec_clean_text, spec_parse_u32};
use crate::number::{decimal, law_u32_text_round_trip, lemma_decimal_digits};
use crate::pages::caixa_dashboard::{id_texts, parse_text_list, receive_params, spec_parse_text_list, trimmed_items};
use crate::services::caixa_service::CaixaSelecaoComandasRequest;
use crate::split::{
    law_split_undoes_join, lemma_split_concat, lemma_split_nonempty, lemma_split_single, piece_views, separator, split_by,
    split_chars, Separator,
};
use crate::text::{
    chars_eq, opt_chars, find_chars, find_first, from_chars, is_ascii_digit, lemma_find_from, lemma_occurs_in_subrange,
    lemma_replace_absent, lemma_replace_none, lemma_trim_idempotent, lemma_trim_is_subrange,
    lemma_trim_subrange, occurs_at, replace_all, replace_chars, slice_chars, to_chars, trim, trim_end, trim_start,
};
use crate::uri::{join, lemma_join_chars, lemma_join_front, lemma_join_no_occurrence, views, with_query};

verus! {

/// `s.trim_start_matches(c)`: `s` without the copies of `c` it starts with.
pub open spec fn strip_leading(s: Seq<char>, c: char) -> Seq<char>
    decreases s.len(),
{
    if s.len() > 0 && s[0] == c {
        strip_leading(s.drop_first(), c)
    } else {
        s
    }
}

/// `part.split_once('=')`: the text before the first `=` and the text after it.
pub open spec fn split_once_eq(part: Seq<char>) -> Option<(Seq<char>, Seq<char>)> {
    match find_first(part, seq!['=']) {
        Some(i) => Some((part.take(i), part.skip(i + 1))),
        None => None,
    }
}

/// A query value as the form reads it: `%2C` becomes `,`, then `%20` and `+` become
/// spaces.
pub open spec fn decode_query_value(v: Seq<char>) -> Seq<char> {
    replace_all(replace_all(replace_all(v, "%2C"@, ","@), "%20"@, " "@), "+"@, " "@)
}

/// The decoded value of the first `key=value` part whose key is `key`.
pub open spec fn lookup_query(parts: Seq<Seq<char>>, key: Seq<char>) -> Option<Seq<char>>
    decreases parts.len(),
{
    if parts.len() == 0 {
        None
    } else {
        match split_once_eq(parts[0]) {
            Some(kv) => if kv.0 == key {
                Some(decode_query_value(kv.1))
            } else {
                lookup_query(parts.drop_first(), key)
            },
            None => lookup_query(parts.drop_first(), key),
        }
    }
}

/// The value of `key` in a location's search string (`?a=1&b=2`): the leading `?`s
/// dropped, the rest split at `&`, and the first part `key=value` decoded.
pub open spec fn spec_query_value(search: Seq<char>, key: Seq<char>) -> Option<Seq<char>> {
    lookup_query(split_by(strip_leading(search, '?'), separator(Separator::Char('&'))), key)
}

/// The value of `key` in the search string `search` (see `spec_query_value`).
pub fn query_value(search: &str, key: &str) -> (r: Option<String>)
    ensures
        match r {
            Some(s) => spec_query_value(search@, key@) == Some(s@),
            None => spec_query_value(search@, key@) is None,
        },
{
    let v = to_chars(search);
    let mut start: usize = 0;
    assert(v@.skip(0) =~= v@);
    while start < v.len() && v[start] == '?'
        invariant
            start <= v.len(),
            strip_leading(v@, '?') == strip_leading(v@.skip(start as int), '?'),
        decreases v.len() - start,
    {
        assert(v@.skip(start as int).drop_first() =~= v@.skip(start + 1));
        start = start + 1;
    }
    let rest = slice_chars(&v, start, v.len());
    assert(rest@ =~= v@.skip(start as int));
    assert(strip_leading(rest@, '?') == rest@);
    let parts = split_chars(&rest, Separator::Char('&'));
    let k = to_chars(key);
    let eq = vec!['='];
    assert(eq@ =~= seq!['=']);
    let ghost ps = piece_views(parts@);
    let mut i: usize = 0;
    assert(ps.skip(0) =~= ps);
    assert(ps == split_by(strip_leading(search@, '?'), separator(Separator::Char('&'))));
    while i < parts.len()
        invariant
            i <= parts.len(),
            ps == piece_views(parts@),
            ps == split_by(strip_leading(search@, '?'), separator(Separator::Char('&'))),
            k@ == key@,
            eq@ == seq!['='],
            lookup_query(ps, key@) == lookup_query(ps.skip(i as int), key@),
        decreases parts.len() - i,
    {
        let p = &parts[i];
        proof {
            assert(ps.skip(i as int)[0] == p@);
            assert(ps.skip(i as int).drop_first() =~= ps.skip(i + 1));
        }
        match find_chars(p, &eq) {
            Some(j) => {
                proof {
                    lemma_find_from(p@, eq@, 0);
                    assert(eq@.len() == 1);
                }
                let cur = slice_chars(p, 0, j);
                assert(cur@ =~= p@.take(j as int));
                if chars_eq(&cur, &k) {
                    let val = slice_chars(p, j + 1, p.len());
                    assert(val@ =~= p@.skip(j + 1));
                    let a = replace_chars(&val, "%2C", ",");
                    let b = replace_chars(&a, "%20", " ");
                    let c = replace_chars(&b, "+", " ");
                    let out = from_chars(&c);
                    proof {
                        assert(split_once_eq(p@) == Some((p@.take(j as int), p@.skip(j + 1))));
                        assert(lookup_query(ps.skip(i as int), key@) == Some(decode_query_value(val@)));
                    }
                    return Some(out);
                }
            },
            None => {},
        }
        i = i + 1;
    }
    None
}

/// The numbers among the trimmed pieces, in order; pieces that are not numbers are skipped.
pub open spec fn u32_items(parts: Seq<Seq<char>>) -> Seq<u32>
    decreases parts.len(),
{
    if parts.len() == 0 {
        Seq::empty()
    } else {
        let prev = u32_items(parts.drop_last());
        match spec_parse_u32(parts.last()) {
            Some(n) => prev.push(n as u32),
            None => prev,
        }
    }
}

/// The ids of a typed list: the text split at `,`, `;` and white-space separators, each
/// piece trimmed and read as a `u32`; pieces that are not numbers are dropped.
pub open spec fn spec_parse_u32_list(value: Seq<char>) -> Seq<u32> {
    u32_items(split_by(value, separator(Separator::List)))
}

/// The ids of a typed list (see `spec_parse_u32_list`).
pub fn parse_u32_list(value: &str) -> (r: Vec<u32>)
    ensures
        r@ == spec_parse_u32_list(value@),
{
    let v = to_chars(value);
    let parts = split_chars(&v, Separator::List);
    let mut r: Vec<u32> = Vec::new();
    let mut i: usize = 0;
    while i < parts.len()
        invariant
            i <= parts.len(),
            piece_views(parts@) == split_by(v@, separator(Separator::List)),
            r@ == u32_items(piece_views(parts@).take(i as int)),
        decreases parts.len() - i,
    {
        let text = from_chars(&parts[i]);
        let n = parse_u32(text.as_str());
        proof {
            let ps = piece_views(parts@);
            assert(ps.take(i + 1).drop_last() =~= ps.take(i as int));
            assert(ps.take(i + 1).last() == parts@[i as int]@);
        }
        match n {
            Some(x) => r.push(x),
            None => {},
        }
        i = i + 1;
    }
    assert(piece_views(parts@).take(parts.len() as int) =~= piece_views(parts@));
    r
}

/// A list, or nothing when it is empty.
pub open spec fn nonempty<T>(s: Seq<T>) -> Option<Seq<T>> {
    if s.len() > 0 {
        Some(s)
    } else {
        None
    }
}

/// The ids of an optional list.
pub open spec fn opt_ids(o: Option<Vec<u32>>) -> Option<Seq<u32>> {
    match o {
        Some(v) => Some(v@),
        None => None,
    }
}

/// The texts of an optional list.
pub open spec fn opt_texts(o: Option<Vec<String>>) -> Option<Seq<Seq<char>>> {
    match o {
        Some(v) => Some(views(v@)),
        None => None,
    }
}

/// The selection request for the typed ids and comanda numbers: each list as parsed
/// (`spec_parse_u32_list`, `spec_parse_text_list`), left unset when empty.
pub fn selection_payload(ids_text: &str, numeros_text: &str) -> (r: CaixaSelecaoComandasRequest)
    ensures
        opt_ids(r.comanda_ids) == nonempty(spec_parse_u32_list(ids_text@)),
        opt_texts(r.numeros_comandas) == nonempty(spec_parse_text_list(numeros_text@)),
{
    let ids = parse_u32_list(ids_text);
    let numeros = parse_text_list(numeros_text);
    let comanda_ids = if ids.len() > 0 {
        Some(ids)
    } else {
        None
    };
    let numeros_comandas = if numeros.len() > 0 {
        Some(numeros)
    } else {
        None
    };
    CaixaSelecaoComandasRequest { comanda_ids, numeros_comandas }
}

/// The `search` part of a route, as the browser's location gives it: everything from
/// the first `?` on, or nothing without one.
pub open spec fn location_search(route: Seq<char>) -> Seq<char> {
    match find_first(route, seq!['?']) {
        Some(i) => route.skip(i),
        None => Seq::empty(),
    }
}

/// Typed text that passes through the payment page's query unchanged: no `&` (which
/// ends a query parameter) and no `+`, `%2C` or `%20` (which the form decodes).
pub open spec fn plain_typed_text(t: Seq<char>) -> bool {
    &&& forall|i: int| 0 <= i < t.len() ==> #[trigger] t[i] != '&' && t[i] != '+'
    &&& forall|i: int| !#[trigger] occurs_at(t, "%2C"@, i)
    &&& forall|i: int| !#[trigger] occurs_at(t, "%20"@, i)
}

/// No character of `t` is one that `sep` splits at.
pub open spec fn no_separator(t: Seq<char>, sep: spec_fn(char) -> bool) -> bool {
    forall|i: int| 0 <= i < t.len() ==> !sep(#[trigger] t[i])
}

/// `pat` is first found at `k` when it occurs there and nowhere before.
proof fn lemma_find_first_at(s: Seq<char>, pat: Seq<char>, k: int)
    requires
        occurs_at(s, pat, k),
        forall|j: int| 0 <= j < k ==> !occurs_at(s, pat, j),
    ensures
        find_first(s, pat) == Some(k),
{
    lemma_find_from(s, pat, 0);
}

/// The page `receive_query` opens reads, after its leading `?`, the parameters
/// joined by `&`.
proof fn lemma_receive_search(params: Seq<Seq<char>>)
    requires
        params.len() > 0,
        params[0].len() > 0,
        params[0][0] != '?',
    ensures
        strip_leading(location_search(with_query("/caixa/receber"@, params)), '?') == join(params, seq!['&']),
{
    reveal_strlit("/caixa/receber");
    let base = "/caixa/receber"@;
    let joined = join(params, seq!['&']);
    let route = with_query(base, params);
    assert(route == base + seq!['?'] + joined);
    assert(occurs_at(route, seq!['?'], base.len() as int)) by {
        assert(route.subrange(base.len() as int, base.len() + 1int) =~= seq!['?']);
    }
    assert forall|j: int| 0 <= j < base.len() implies !occurs_at(route, seq!['?'], j) by {
        assert(route.subrange(j, j + 1)[0] == base[j]);
    }
    lemma_find_first_at(route, seq!['?'], base.len() as int);
    let search = location_search(route);
    assert(search =~= seq!['?'] + joined);
    if params.len() == 1 {
        assert(joined == params[0]);
    } else {
        lemma_join_front(params, seq!['&']);
        assert(joined[0] == params[0][0]);
    }
    assert(search.drop_first() =~= joined);
    assert(strip_leading(search, '?') == strip_leading(joined, '?'));
    assert(strip_leading(joined, '?') == joined);
}

/// The `ids` parameter: no `&` in it, its key is `ids`, and its value is the joined
/// ids, digits and commas only.
proof fn lemma_ids_param(ids: Seq<u32>)
    requires
        ids.len() > 0,
    ensures
        ({
            let x = join(id_texts(ids), ","@);
            let p = "ids="@ + x;
            &&& forall|i: int| 0 <= i < p.len() ==> #[trigger] p[i] != '&'
            &&& p.len() > 0 && p[0] == 'i'
            &&& split_once_eq(p) == Some(("ids"@, x))
            &&& forall|i: int| 0 <= i < x.len() ==> is_ascii_digit(#[trigger] x[i]) || x[i] == ','
        }),
{
    reveal_strlit("ids=");
    reveal_strlit("ids");
    let texts = id_texts(ids);
    let x = join(texts, ","@);
    let p = "ids="@ + x;
    let ok = |c: char| is_ascii_digit(c) || c == ',';
    assert forall|k: int, i: int| 0 <= k < texts.len() && 0 <= i < texts[k].len() implies ok(
        #[trigger] texts[k][i],
    ) by {
        lemma_decimal_digits(ids[k] as nat);
        assert(is_ascii_digit(decimal(ids[k] as nat)[i]));
    }
    reveal_strlit(",");
    lemma_join_chars(texts, ","@, ok);
    assert forall|i: int| 0 <= i < x.len() implies is_ascii_digit(#[trigger] x[i]) || x[i] == ',' by {
        assert(ok(x[i]));
    }
    assert forall|i: int| 0 <= i < p.len() implies #[trigger] p[i] != '&' by {
        if i >= 4 {
            assert(p[i] == x[i - 4]);
            assert(ok(x[i - 4]));
        }
    }
    assert(occurs_at(p, seq!['='], 3)) by {
        assert(p.subrange(3, 4) =~= seq!['=']);
    }
    assert forall|j: int| 0 <= j < 3 implies !occurs_at(p, seq!['='], j) by {
        assert(p.subrange(j, j + 1)[0] == p[j]);
    }
    lemma_find_first_at(p, seq!['='], 3);
    assert(p.take(3) =~= "ids"@);
    assert(p.skip(4) =~= x);
}

/// Reading back the decimal texts of ids gives the ids.
proof fn lemma_u32_items_ids(ids: Seq<u32>)
    ensures
        u32_items(id_texts(ids)) == ids,
    decreases ids.len(),
{
    if ids.len() > 0 {
        lemma_u32_items_ids(ids.drop_last());
        assert(id_texts(ids).drop_last() =~= id_texts(ids.drop_last()));
        let n = ids.last();
        let d = decimal(n as nat);
        assert(id_texts(ids).last() == d);
        lemma_decimal_digits(n as nat);
        assert(is_ascii_digit(d[0]));
        assert(is_ascii_digit(d[d.len() - 1]));
        lemma_trim_subrange(d, 0, d.len() as int);
        assert(d.subrange(0, d.len() as int) =~= d);
        law_u32_text_round_trip(n);
        assert(ids.drop_last().push(n) =~= ids);
    }
}

/// With ids chosen, the payment page finds the `ids` value and parses the ids back.
proof fn lemma_chosen_ids_read_back(ids: Seq<u32>, manual: Seq<char>)
    requires
        ids.len() > 0,
    ensures
        spec_query_value(location_search(with_query("/caixa/receber"@, receive_params(ids, manual))), "ids"@)
            matches Some(v) && spec_parse_u32_list(v) == ids,
{
    reveal_strlit(",");
    reveal_strlit("%2C");
    reveal_strlit("%20");
    reveal_strlit("+");
    let params = receive_params(ids, manual);
    let texts = id_texts(ids);
    let x = join(texts, ","@);
    let first = "ids="@ + x;
    lemma_ids_param(ids);
    assert(params[0] == first);
    lemma_receive_search(params);
    let joined = join(params, seq!['&']);
    let search = location_search(with_query("/caixa/receber"@, params));
    // The first piece at `&` is the `ids` parameter.
    let amp = separator(Separator::Char('&'));
    let ps = split_by(joined, amp);
    lemma_split_single(first, amp);
    if params.len() == 1 {
        assert(joined == first);
    } else {
        lemma_join_front(params, seq!['&']);
        lemma_split_concat(first, '&', join(params.drop_first(), seq!['&']), amp);
    }
    assert(ps[0] == first);
    // Decoding leaves digits and commas alone.
    assert forall|i: int| 0 <= i < x.len() implies x[i] != "%2C"@[0] by {
        assert(is_ascii_digit(x[i]) || x[i] == ',');
    }
    lemma_replace_absent(x, "%2C"@, ","@);
    lemma_replace_absent(x, "%20"@, " "@);
    assert forall|i: int| 0 <= i < x.len() implies x[i] != "+"@[0] by {
        assert(is_ascii_digit(x[i]) || x[i] == ',');
    }
    lemma_replace_absent(x, "+"@, " "@);
    assert(spec_query_value(search, "ids"@) == Some(x));
    // Parsing the joined ids gives the ids.
    assert(","@ =~= seq![',']);
    assert forall|k: int, i: int| 0 <= k < texts.len() && 0 <= i < texts[k].len() implies !separator(
        Separator::List,
    )(#[trigger] texts[k][i]) by {
        lemma_decimal_digits(ids[k] as nat);
        assert(is_ascii_digit(decimal(ids[k] as nat)[i]));
    }
    law_split_undoes_join(texts, ',', separator(Separator::List));
    lemma_u32_items_ids(ids);
}

/// A part of plain typed text is plain.
proof fn lemma_plain_subrange(s: Seq<char>, a: int, b: int)
    requires
        plain_typed_text(s),
        0 <= a <= b <= s.len(),
    ensures
        plain_typed_text(s.subrange(a, b)),
{
    let t = s.subrange(a, b);
    assert forall|i: int| 0 <= i < t.len() implies #[trigger] t[i] != '&' && t[i] != '+' by {
        assert(t[i] == s[a + i]);
    }
    assert forall|i: int| !#[trigger] occurs_at(t, "%2C"@, i) by {
        if occurs_at(t, "%2C"@, i) {
            lemma_occurs_in_subrange(s, "%2C"@, a, b, i);
        }
    }
    assert forall|i: int| !#[trigger] occurs_at(t, "%20"@, i) by {
        if occurs_at(t, "%20"@, i) {
            lemma_occurs_in_subrange(s, "%20"@, a, b, i);
        }
    }
}

/// The pieces of plain text are plain and hold no separator; the last piece is a
/// suffix of the text.
proof fn lemma_split_pieces_plain(s: Seq<char>, sep: spec_fn(char) -> bool)
    requires
        plain_typed_text(s),
    ensures
        forall|k: int|
            0 <= k < split_by(s, sep).len() ==> plain_typed_text(#[trigger] split_by(s, sep)[k])
                && no_separator(split_by(s, sep)[k], sep),
        split_by(s, sep).len() > 0,
        split_by(s, sep).last().len() <= s.len(),
        split_by(s, sep).last() == s.skip(s.len() - split_by(s, sep).last().len()),
    decreases s.len(),
{
    lemma_split_nonempty(s, sep);
    reveal_strlit("%2C");
    reveal_strlit("%20");
    let e = Seq::<char>::empty();
    assert(plain_typed_text(e));
    if s.len() == 0 {
        assert(s.skip(0) =~= e);
    } else {
        let t = s.drop_last();
        let c = s.last();
        lemma_plain_subrange(s, 0, s.len() - 1);
        assert(s.subrange(0, s.len() - 1) =~= t);
        lemma_split_pieces_plain(t, sep);
        let r = split_by(t, sep);
        let m = r.last().len();
        if sep(c) {
            assert(split_by(s, sep) == r.push(e));
            assert(s.skip(s.len() as int) =~= e);
        } else {
            let last = r.last().push(c);
            assert(split_by(s, sep) == r.update(r.len() - 1, last));
            assert(last =~= s.skip(s.len() - m - 1));
            lemma_plain_subrange(s, s.len() - m - 1, s.len() as int);
            assert(s.subrange(s.len() - m - 1, s.len() as int) =~= last);
            assert forall|i: int| 0 <= i < last.len() implies !sep(#[trigger] last[i]) by {
                if i < m {
                    assert(last[i] == r.last()[i]);
                    assert(no_separator(r[r.len() - 1], sep));
                }
            }
            assert forall|k: int|
                0 <= k < split_by(s, sep).len() implies plain_typed_text(#[trigger] split_by(s, sep)[k])
                && no_separator(split_by(s, sep)[k], sep) by {
                if k < r.len() - 1 {
                    assert(split_by(s, sep)[k] == r[k]);
                }
            }
        }
    }
}

/// The items of a typed list made of plain pieces without separators are non-empty,
/// trimmed, plain and without separators.
proof fn lemma_trimmed_items_plain(parts: Seq<Seq<char>>, sep: spec_fn(char) -> bool)
    requires
        forall|k: int| 0 <= k < parts.len() ==> plain_typed_text(#[trigger] parts[k]) && no_separator(parts[k], sep),
    ensures
        forall|k: int|
            0 <= k < trimmed_items(parts).len() ==> (#[trigger] trimmed_items(parts)[k]).len() > 0
                && trim(trimmed_items(parts)[k]) == trimmed_items(parts)[k] && plain_typed_text(
                trimmed_items(parts)[k],
            ) && no_separator(trimmed_items(parts)[k], sep),
    decreases parts.len(),
{
    if parts.len() > 0 {
        let front = parts.drop_last();
        assert forall|k: int| 0 <= k < front.len() implies plain_typed_text(#[trigger] front[k]) && no_separator(
            front[k],
            sep,
        ) by {
            assert(front[k] == parts[k]);
        }
        lemma_trimmed_items_plain(front, sep);
        let p = parts.last();
        assert(plain_typed_text(parts[parts.len() - 1]));
        let t = trim(p);
        if t.len() > 0 {
            lemma_trim_is_subrange(p);
            let a = p.len() - trim_start(p).len();
            lemma_plain_subrange(p, a, a + t.len());
            assert forall|i: int| 0 <= i < t.len() implies !sep(#[trigger] t[i]) by {
                assert(t[i] == p[a + i]);
                assert(no_separator(parts[parts.len() - 1], sep));
            }
            lemma_trim_idempotent(p);
            let items = trimmed_items(parts);
            assert(items == trimmed_items(front).push(t));
            assert forall|k: int|
                0 <= k < items.len() implies (#[trigger] items[k]).len() > 0 && trim(items[k]) == items[k]
                && plain_typed_text(items[k]) && no_separator(items[k], sep) by {
                if k < items.len() - 1 {
                    assert(items[k] == trimmed_items(front)[k]);
                }
            }
        }
    }
}

/// A list of non-empty trimmed items is its own typed-list reading.
proof fn lemma_trimmed_items_fixed(items: Seq<Seq<char>>)
    requires
        forall|k: int| 0 <= k < items.len() ==> (#[trigger] items[k]).len() > 0 && trim(items[k]) == items[k],
    ensures
        trimmed_items(items) == items,
    decreases items.len(),
{
    if items.len() > 0 {
        let front = items.drop_last();
        assert forall|k: int| 0 <= k < front.len() implies (#[trigger] front[k]).len() > 0 && trim(front[k])
            == front[k] by {
            assert(front[k] == items[k]);
        }
        lemma_trimmed_items_fixed(front);
        assert(items[items.len() - 1] == items.last());
        assert(front.push(items.last()) =~= items);
    }
}

/// With numbers typed, the payment page finds the `numeros` value and parses the
/// same list back.
proof fn lemma_typed_numbers_read_back(ids: Seq<u32>, manual: Seq<char>)
    requires
        spec_parse_text_list(manual).len() > 0,
        plain_typed_text(manual),
    ensures
        spec_query_value(
            location_search(with_query("/caixa/receber"@, receive_params(ids, manual))),
            "numeros"@,
        ) matches Some(v) && spec_parse_text_list(v) == spec_parse_text_list(manual),
{
    reveal_strlit(",");
    reveal_strlit("%2C");
    reveal_strlit("%20");
    reveal_strlit("+");
    reveal_strlit("numeros=");
    reveal_strlit("numeros");
    reveal_strlit("ids");
    let list = separator(Separator::List);
    let amp = separator(Separator::Char('&'));
    let items = spec_parse_text_list(manual);
    lemma_split_pieces_plain(manual, list);
    lemma_trimmed_items_plain(split_by(manual, list), list);
    assert(","@ =~= seq![',']);
    let x = join(items, ","@);
    let n = "numeros="@ + x;
    // The joined items hold no `&` or `+`, and no `%2C` or `%20`.
    let ok = |c: char| c != '&' && c != '+';
    assert forall|k: int, i: int| 0 <= k < items.len() && 0 <= i < items[k].len() implies ok(
        #[trigger] items[k][i],
    ) by {
        assert(plain_typed_text(items[k]));
    }
    lemma_join_chars(items, ","@, ok);
    assert forall|k: int, i: int| 0 <= k < items.len() implies !#[trigger] occurs_at(items[k], "%2C"@, i) by {
        assert(plain_typed_text(items[k]));
    }
    lemma_join_no_occurrence(items, ',', "%2C"@);
    assert forall|k: int, i: int| 0 <= k < items.len() implies !#[trigger] occurs_at(items[k], "%20"@, i) by {
        assert(plain_typed_text(items[k]));
    }
    lemma_join_no_occurrence(items, ',', "%20"@);
    assert forall|i: int| 0 <= i < n.len() implies #[trigger] n[i] != '&' by {
        if i >= 8 {
            assert(n[i] == x[i - 8]);
            assert(ok(x[i - 8]));
        }
    }
    // The `numeros` parameter reads `numeros` = the joined items.
    assert(occurs_at(n, seq!['='], 7)) by {
        assert(n.subrange(7, 8) =~= seq!['=']);
    }
    assert forall|j: int| 0 <= j < 7 implies !occurs_at(n, seq!['='], j) by {
        assert(n.subrange(j, j + 1)[0] == n[j]);
    }
    lemma_find_first_at(n, seq!['='], 7);
    assert(n.take(7) =~= "numeros"@);
    assert(n.skip(8) =~= x);
    lemma_replace_none(x, "%2C"@, ","@);
    lemma_replace_none(x, "%20"@, " "@);
    assert forall|i: int| 0 <= i < x.len() implies x[i] != "+"@[0] by {
        assert(ok(x[i]));
    }
    lemma_replace_absent(x, "+"@, " "@);
    assert(decode_query_value(x) == x);
    lemma_split_single(n, amp);
    assert(lookup_query(seq![n], "numeros"@) == Some(x));
    // The query holds the `ids` parameter first when ids were chosen.
    let params = receive_params(ids, manual);
    let joined = join(params, seq!['&']);
    if ids.len() > 0 {
        lemma_ids_param(ids);
        let p = "ids="@ + join(id_texts(ids), ","@);
        assert(params =~= seq![p, n]);
        lemma_receive_search(params);
        lemma_join_front(params, seq!['&']);
        assert(params.drop_first() =~= seq![n]);
        lemma_split_single(p, amp);
        lemma_split_concat(p, '&', n, amp);
        let ps = split_by(joined, amp);
        assert(ps =~= seq![p, n]);
        assert("ids"@ != "numeros"@) by {
            assert("ids"@.len() != "numeros"@.len());
        }
        assert(ps.drop_first() =~= seq![n]);
        assert(lookup_query(ps, "numeros"@) == lookup_query(seq![n], "numeros"@));
    } else {
        assert(params =~= seq![n]);
        lemma_receive_search(params);
        assert(joined == n);
    }
    // Reading the joined items gives the items.
    law_split_undoes_join(items, ',', list);
    lemma_trimmed_items_fixed(items);
}

/// The characters of the pieces of a text are characters of the text.
proof fn lemma_split_pieces_chars(s: Seq<char>, sep: spec_fn(char) -> bool, ok: spec_fn(char) -> bool)
    requires
        forall|i: int| 0 <= i < s.len() ==> ok(#[trigger] s[i]),
    ensures
        forall|k: int, i: int|
            0 <= k < split_by(s, sep).len() && 0 <= i < split_by(s, sep)[k].len() ==> ok(
                #[trigger] split_by(s, sep)[k][i],
            ),
    decreases s.len(),
{
    lemma_split_nonempty(s, sep);
    if s.len() > 0 {
        let t = s.drop_last();
        let c = s.last();
        assert forall|i: int| 0 <= i < t.len() implies ok(#[trigger] t[i]) by {
            assert(t[i] == s[i]);
        }
        lemma_split_pieces_chars(t, sep, ok);
        let r = split_by(t, sep);
        lemma_split_nonempty(t, sep);
        assert(ok(s[s.len() - 1]));
        assert forall|k: int, i: int|
            0 <= k < split_by(s, sep).len() && 0 <= i < split_by(s, sep)[k].len() implies ok(
            #[trigger] split_by(s, sep)[k][i],
        ) by {
            if !sep(c) && k == r.len() - 1 && i == r.last().len() {
                assert(split_by(s, sep)[k][i] == c);
            } else if k < r.len() {
                assert(split_by(s, sep)[k][i] == r[k][i]);
            }
        }
    }
}

/// The characters of the items of a typed list are characters of its pieces.
proof fn lemma_trimmed_items_chars(parts: Seq<Seq<char>>, ok: spec_fn(char) -> bool)
    requires
        forall|k: int, i: int| 0 <= k < parts.len() && 0 <= i < parts[k].len() ==> ok(#[trigger] parts[k][i]),
    ensures
        forall|k: int, i: int|
            0 <= k < trimmed_items(parts).len() && 0 <= i < trimmed_items(parts)[k].len() ==> ok(
                #[trigger] trimmed_items(parts)[k][i],
            ),
    decreases parts.len(),
{
    if parts.len() > 0 {
        let front = parts.drop_last();
        assert forall|k: int, i: int| 0 <= k < front.len() && 0 <= i < front[k].len() implies ok(
            #[trigger] front[k][i],
        ) by {
            assert(front[k] == parts[k]);
        }
        lemma_trimmed_items_chars(front, ok);
        let p = parts.last();
        let t = trim(p);
        lemma_trim_is_subrange(p);
        let a = p.len() - trim_start(p).len();
        let items = trimmed_items(parts);
        assert forall|k: int, i: int| 0 <= k < items.len() && 0 <= i < items[k].len() implies ok(
            #[trigger] items[k][i],
        ) by {
            if t.len() > 0 && k == items.len() - 1 {
                assert(items[k] == t);
                assert(t[i] == p[a + i]);
                assert(ok(parts[parts.len() - 1][a + i]));
            } else {
                assert(items[k] == trimmed_items(front)[k]);
            }
        }
    }
}

/// Without ids chosen, and with no `&` typed, the payment page finds no `ids` value.
proof fn lemma_no_ids_read(manual: Seq<char>)
    requires
        forall|i: int| 0 <= i < manual.len() ==> #[trigger] manual[i] != '&',
    ensures
        spec_query_value(
            location_search(with_query("/caixa/receber"@, receive_params(Seq::empty(), manual))),
            "ids"@,
        ) is None,
{
    reveal_strlit("/caixa/receber");
    reveal_strlit("numeros=");
    reveal_strlit("numeros");
    reveal_strlit("ids");
    reveal_strlit(",");
    let amp = separator(Separator::Char('&'));
    let list = separator(Separator::List);
    let items = spec_parse_text_list(manual);
    let params = receive_params(Seq::empty(), manual);
    if items.len() == 0 {
        assert(params =~= Seq::<Seq<char>>::empty());
        let base = "/caixa/receber"@;
        assert(with_query(base, params) == base);
        lemma_find_from(base, seq!['?'], 0);
        assert forall|j: int| !occurs_at(base, seq!['?'], j) by {
            if occurs_at(base, seq!['?'], j) {
                assert(base.subrange(j, j + 1)[0] == base[j]);
            }
        }
        let e = Seq::<char>::empty();
        assert(location_search(base) == e);
        assert(strip_leading(e, '?') == e);
        assert(split_by(e, amp) =~= seq![e]);
        assert(find_first(e, seq!['=']) is None);
        assert(seq![e].drop_first() =~= Seq::<Seq<char>>::empty());
        assert(split_once_eq(e) is None);
        assert(lookup_query(seq![e], "ids"@) == lookup_query(Seq::<Seq<char>>::empty(), "ids"@));
        assert(spec_query_value(location_search(base), "ids"@) is None);
    } else {
        let ok = |c: char| c != '&';
        lemma_split_pieces_chars(manual, list, ok);
        lemma_trimmed_items_chars(split_by(manual, list), ok);
        lemma_join_chars(items, ","@, ok);
        let x = join(items, ","@);
        let n = "numeros="@ + x;
        assert(params =~= seq![n]);
        assert forall|i: int| 0 <= i < n.len() implies !amp(#[trigger] n[i]) by {
            if i >= 8 {
                assert(n[i] == x[i - 8]);
                assert(ok(x[i - 8]));
            }
        }
        lemma_receive_search(params);
        assert(join(params, seq!['&']) == n);
        lemma_split_single(n, amp);
        assert(occurs_at(n, seq!['='], 7)) by {
            assert(n.subrange(7, 8) =~= seq!['=']);
        }
        assert forall|j: int| 0 <= j < 7 implies !occurs_at(n, seq!['='], j) by {
            assert(n.subrange(j, j + 1)[0] == n[j]);
        }
        lemma_find_first_at(n, seq!['='], 7);
        assert(n.take(7) =~= "numeros"@);
        assert("numeros"@ != "ids"@) by {
            assert("ids"@.len() != "numeros"@.len());
        }
        assert(seq![n].drop_first() =~= Seq::<Seq<char>>::empty());
        assert(split_once_eq(n) == Some((n.take(7), n.skip(8))));
        assert(lookup_query(seq![n], "ids"@) == lookup_query(Seq::<Seq<char>>::empty(), "ids"@));
        assert(strip_leading(location_search(with_query("/caixa/receber"@, params)), '?') == n);
        assert(spec_query_value(location_search(with_query("/caixa/receber"@, params)), "ids"@) is None);
    }
}

/// The ids the payment form works with: those it parses from the `ids` value, none
/// when there is no such value.
pub open spec fn form_ids(search: Seq<char>) -> Seq<u32> {
    match spec_query_value(search, "ids"@) {
        Some(v) => spec_parse_u32_list(v),
        None => Seq::empty(),
    }
}

/// The comandas chosen by id on the cash desk dashboard reach the payment form: on
/// the page `receive_query` opens, the form's ids are exactly the chosen ones. (When
/// none were chosen, typed comanda numbers holding `&` could smuggle an `ids` value
/// into the query, so they are left out.)
pub proof fn law_selected_ids_reach_payment_form(ids: Seq<u32>, manual: Seq<char>)
    requires
        ids.len() > 0 || forall|i: int| 0 <= i < manual.len() ==> #[trigger] manual[i] != '&',
    ensures
        form_ids(location_search(with_query("/caixa/receber"@, receive_params(ids, manual)))) == ids,
{
    if ids.len() > 0 {
        lemma_chosen_ids_read_back(ids, manual);
    } else {
        lemma_no_ids_read(manual);
        let e = Seq::<char>::empty();
        let list = separator(Separator::List);
        assert(split_by(e, list) =~= seq![e]);
        assert(trim_start(e) == e);
        assert(trim_end(e) == e);
        assert(u32_items(seq![e]) == u32_items(seq![e].drop_last()));
        assert(seq![e].drop_last() =~= Seq::<Seq<char>>::empty());
        assert(ids =~= Seq::<u32>::empty());
    }
}

/// Without numbers typed, the payment page finds no `numeros` value.
proof fn lemma_no_numbers_read(ids: Seq<u32>, manual: Seq<char>)
    requires
        spec_parse_text_list(manual).len() == 0,
    ensures
        spec_query_value(location_search(with_query("/caixa/receber"@, receive_params(ids, manual))), "numeros"@)
            is None,
{
    reveal_strlit("/caixa/receber");
    reveal_strlit("numeros");
    reveal_strlit("ids");
    let amp = separator(Separator::Char('&'));
    let params = receive_params(ids, manual);
    assert("numeros"@ != "ids"@) by {
        assert("ids"@.len() != "numeros"@.len());
    }
    if ids.len() == 0 {
        assert(params =~= Seq::<Seq<char>>::empty());
        let base = "/caixa/receber"@;
        assert(with_query(base, params) == base);
        lemma_find_from(base, seq!['?'], 0);
        assert forall|j: int| !occurs_at(base, seq!['?'], j) by {
            if occurs_at(base, seq!['?'], j) {
                assert(base.subrange(j, j + 1)[0] == base[j]);
            }
        }
        let e = Seq::<char>::empty();
        assert(location_search(base) == e);
        assert(strip_leading(e, '?') == e);
        assert(split_by(e, amp) =~= seq![e]);
        assert(find_first(e, seq!['=']) is None);
        assert(seq![e].drop_first() =~= Seq::<Seq<char>>::empty());
        assert(split_once_eq(e) is None);
        assert(lookup_query(seq![e], "numeros"@) == lookup_query(Seq::<Seq<char>>::empty(), "numeros"@));
    } else {
        lemma_ids_param(ids);
        let p = "ids="@ + join(id_texts(ids), ","@);
        assert(params =~= seq![p]);
        lemma_receive_search(params);
        assert(join(params, seq!['&']) == p);
        lemma_split_single(p, amp);
        assert(seq![p].drop_first() =~= Seq::<Seq<char>>::empty());
        assert(lookup_query(seq![p], "numeros"@) == lookup_query(Seq::<Seq<char>>::empty(), "numeros"@));
        assert(strip_leading(location_search(with_query("/caixa/receber"@, params)), '?') == p);
    }
}

/// The comanda numbers the payment form works with: those it reads from the
/// `numeros` value, none when there is no such value.
pub open spec fn form_numbers(search: Seq<char>) -> Seq<Seq<char>> {
    match spec_query_value(search, "numeros"@) {
        Some(v) => spec_parse_text_list(v),
        None => Seq::empty(),
    }
}

/// Comanda numbers typed on the cash desk dashboard reach the payment form: on the
/// page `receive_query` opens, the form's numbers are the typed list, provided the
/// typed text holds no `&`, `+`, `%2C` or `%20`, which the query would cut or the
/// form would decode.
pub proof fn law_typed_numbers_reach_payment_form(ids: Seq<u32>, manual: Seq<char>)
    requires
        plain_typed_text(manual),
    ensures
        form_numbers(location_search(with_query("/caixa/receber"@, receive_params(ids, manual))))
            == spec_parse_text_list(manual),
{
    if spec_parse_text_list(manual).len() > 0 {
        lemma_typed_numbers_read_back(ids, manual);
    } else {
        lemma_no_numbers_read(ids, manual);
    }
}

/// What submitting the payment form does. Discount and surcharge are floats, which
/// the page parses and keeps; they go with the payload it builds from this step.
#[derive(Debug)]
pub enum RecebimentoStep {
    /// Show this warning and send nothing.
    Warn(&'static str),
    /// Change the payment being edited.
    Update { cliente_id: Option<u32>, observacao: Option<String> },
    /// Receive the comandas chosen by id and by number.
    Create {
        comanda_ids: Option<Vec<u32>>,
        numeros_comandas: Option<Vec<String>>,
        cliente_id: Option<u32>,
        observacao: Option<String>,
    },
}

pub open spec fn opt_u32_view(o: Option<u32>) -> Option<int> {
    match o {
        Some(n) => Some(n as int),
        None => None,
    }
}

/// Submitting the payment form: the discount must read as a number (`desconto_ok`),
/// then the surcharge (`acrescimo_ok`), and neither may be negative (`nonnegative`);
/// the client id is the trimmed text read as a number and the note the trimmed
/// text, each unset otherwise. Editing updates the payment; a new one needs at
/// least one comanda, by id or by number (see `selection_payload`).
pub fn recebimento_submit(
    editing: bool,
    desconto_ok: bool,
    acrescimo_ok: bool,
    nonnegative: bool,
    cliente_text: &str,
    observacao_text: &str,
    ids_text: &str,
    numeros_text: &str,
) -> (r: RecebimentoStep)
    ensures
        !desconto_ok ==> (r matches RecebimentoStep::Warn(m) && m == "Desconto invalido"),
        desconto_ok && !acrescimo_ok ==> (r matches RecebimentoStep::Warn(m) && m == "Acrescimo invalido"),
        desconto_ok && acrescimo_ok && !nonnegative ==> (r matches RecebimentoStep::Warn(m) && m
            == "Desconto e acrescimo nao podem ser negativos."),
        desconto_ok && acrescimo_ok && nonnegative && editing ==> (r matches RecebimentoStep::Update {
            cliente_id,
            observacao,
        } && opt_u32_view(cliente_id) == spec_parse_u32(cliente_text@) && opt_chars(observacao)
            == spec_clean_text(observacao_text@)),
        desconto_ok && acrescimo_ok && nonnegative && !editing && spec_parse_u32_list(ids_text@).len() == 0
            && spec_parse_text_list(numeros_text@).len() == 0 ==> (r matches RecebimentoStep::Warn(m) && m
            == "Informe pelo menos uma comanda para receber."),
        desconto_ok && acrescimo_ok && nonnegative && !editing && !(spec_parse_u32_list(ids_text@).len() == 0
            && spec_parse_text_list(numeros_text@).len() == 0) ==> (r matches RecebimentoStep::Create {
            comanda_ids,
            numeros_comandas,
            cliente_id,
            observacao,
        } && opt_ids(comanda_ids) == nonempty(spec_parse_u32_list(ids_text@)) && opt_texts(numeros_comandas)
            == nonempty(spec_parse_text_list(numeros_text@)) && opt_u32_view(cliente_id) == spec_parse_u32(
            cliente_text@,
        ) && opt_chars(observacao) == spec_clean_text(observacao_text@)),
{
    if !desconto_ok {
        return RecebimentoStep::Warn("Desconto invalido");
    }
    if !acrescimo_ok {
        return RecebimentoStep::Warn("Acrescimo invalido");
    }
    if !nonnegative {
        return RecebimentoStep::Warn("Desconto e acrescimo nao podem ser negativos.");
    }
    let cliente_id = parse_u32(cliente_text);
    let observacao = clean_text(from_chars(&to_chars(observacao_text)));
    if editing {
        return RecebimentoStep::Update { cliente_id, observacao };
    }
    let selection = selection_payload(ids_text, numeros_text);
    if selection.comanda_ids.is_none() && selection.numeros_comandas.is_none() {
        return RecebimentoStep::Warn("Informe pelo menos uma comanda para receber.");
    }
    RecebimentoStep::Create {
        comanda_ids: selection.comanda_ids,
        numeros_comandas: selection.numeros_comandas,
        cliente_id,
        observacao,
    }
}

} // verus!
