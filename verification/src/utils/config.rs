//! Build-time settings of the application, and how API URLs are formed from them.
use vstd::prelude::*;
use crate::number::{lemma_parse_unsigned_bounds, spec_u64_from_str, u64_from_str};
use crate::text::{has_prefix, push_range, starts_with, str_eq, string_push, to_chars};

verus! {

/// Where the API is served when no base URL is configured.
pub const DEFAULT_API_BASE_URL: &'static str = "/api";

/// The application's name when none is configured.
pub const DEFAULT_APP_NAME: &'static str = "Comandas do Ze";

/// The log level when none is configured.
pub const DEFAULT_LOG_LEVEL: &'static str = "info";

/// The API timeout, in milliseconds, when none (or no valid one) is configured.
pub const DEFAULT_API_TIMEOUT_MS: u64 = 15_000;

/// The configured timeout when it parses as a `u64`, else the default.
pub open spec fn spec_api_timeout_ms(raw: Option<Seq<char>>) -> u64 {
    match raw {
        Some(t) => match spec_u64_from_str(t) {
            Ok(n) => n as u64,
            Err(_) => DEFAULT_API_TIMEOUT_MS,
        },
        None => DEFAULT_API_TIMEOUT_MS,
    }
}

pub open spec fn opt_view(raw: Option<&str>) -> Option<Seq<char>> {
    match raw {
        Some(t) => Some(t@),
        None => None,
    }
}

/// The API timeout in milliseconds, from the configured text `raw`
/// (`APP_API_TIMEOUT_MS`): its value when it parses as a `u64`, 15000 otherwise.
pub fn api_timeout_ms(raw: Option<&str>) -> (r: u64)
    ensures
        r == spec_api_timeout_ms(opt_view(raw)),
{
    match raw {
        Some(t) => match u64_from_str(t) {
            Ok(n) => n,
            Err(_) => DEFAULT_API_TIMEOUT_MS,
        },
        None => DEFAULT_API_TIMEOUT_MS,
    }
}

/// Debug mode is on when the configured text is exactly `true`, `1`, `yes` or `on`.
pub open spec fn spec_debug_mode(raw: Option<Seq<char>>) -> bool {
    match raw {
        Some(t) => t == "true"@ || t == "1"@ || t == "yes"@ || t == "on"@,
        None => false,
    }
}

/// Whether debug mode is on, from the configured text `raw` (`APP_DEBUG_MODE`).
pub fn debug_mode(raw: Option<&str>) -> (r: bool)
    ensures
        r == spec_debug_mode(opt_view(raw)),
{
    match raw {
        Some(t) => str_eq(t, "true") || str_eq(t, "1") || str_eq(t, "yes") || str_eq(t, "on"),
        None => false,
    }
}

/// `s.trim_end_matches(c)`.
pub open spec fn trim_end_char(s: Seq<char>, c: char) -> Seq<char>
    decreases s.len(),
{
    if s.len() > 0 && s.last() == c {
        trim_end_char(s.drop_last(), c)
    } else {
        s
    }
}

/// `s.trim_start_matches(c)`.
pub open spec fn trim_start_char(s: Seq<char>, c: char) -> Seq<char>
    decreases s.len(),
{
    if s.len() > 0 && s[0] == c {
        trim_start_char(s.drop_first(), c)
    } else {
        s
    }
}

/// Index of the first character of `v` that is not `c`.
fn start_without(v: &Vec<char>, c: char) -> (i: usize)
    ensures
        i <= v.len(),
        trim_start_char(v@, c) == v@.skip(i as int),
{
    let mut i: usize = 0;
    assert(v@.skip(0) =~= v@);
    while i < v.len() && v[i] == c
        invariant
            i <= v.len(),
            trim_start_char(v@, c) == trim_start_char(v@.skip(i as int), c),
        decreases v.len() - i,
    {
        assert(v@.skip(i as int).drop_first() =~= v@.skip(i + 1));
        i = i + 1;
    }
    i
}

/// Index just past the last character of `v` that is not `c`.
fn end_without(v: &Vec<char>, c: char) -> (j: usize)
    ensures
        j <= v.len(),
        trim_end_char(v@, c) == v@.take(j as int),
{
    let mut j: usize = v.len();
    assert(v@.take(v.len() as int) =~= v@);
    while j > 0 && v[j - 1] == c
        invariant
            j <= v.len(),
            trim_end_char(v@, c) == trim_end_char(v@.take(j as int), c),
        decreases j,
    {
        assert(v@.take(j as int).drop_last() =~= v@.take(j - 1));
        j = j - 1;
    }
    j
}

/// The full URL of the API path `path`: the base URL and the path joined by one
/// `/`; a URL that is not absolute (`http://`, `https://`) is placed under `origin`
/// (the page's origin) when there is one.
pub open spec fn spec_api_url(base_url: Seq<char>, path: Seq<char>, origin: Option<Seq<char>>) -> Seq<char> {
    let url = trim_end_char(base_url, '/') + seq!['/'] + trim_start_char(path, '/');
    if has_prefix(url, "http://"@) || has_prefix(url, "https://"@) {
        url
    } else {
        match origin {
            Some(o) => o + seq!['/'] + trim_start_char(url, '/'),
            None => url,
        }
    }
}

/// The full URL of the API path `path` under `base_url` (see `spec_api_url`).
pub fn api_url(base_url: &str, path: &str, origin: Option<&str>) -> (r: String)
    ensures
        r@ == spec_api_url(base_url@, path@, opt_view(origin)),
{
    let b = to_chars(base_url);
    let p = to_chars(path);
    let b_end = end_without(&b, '/');
    let p_start = start_without(&p, '/');
    let mut url: Vec<char> = Vec::new();
    let mut k: usize = 0;
    while k < b_end
        invariant
            k <= b_end <= b.len(),
            url@ == b@.take(k as int),
        decreases b_end - k,
    {
        url.push(b[k]);
        k = k + 1;
        assert(url@ =~= b@.take(k as int));
    }
    url.push('/');
    let mut k: usize = p_start;
    while k < p.len()
        invariant
            p_start <= k <= p.len(),
            url@ == b@.take(b_end as int) + seq!['/'] + p@.subrange(p_start as int, k as int),
        decreases p.len() - k,
    {
        url.push(p[k]);
        k = k + 1;
        assert(url@ =~= b@.take(b_end as int) + seq!['/'] + p@.subrange(p_start as int, k as int));
    }
    assert(p@.subrange(p_start as int, p.len() as int) =~= p@.skip(p_start as int));
    let mut r = String::new();
    if starts_with(&url, "http://") || starts_with(&url, "https://") {
        push_range(&mut r, &url, 0, url.len());
    } else {
        match origin {
            Some(o) => {
                let ov = to_chars(o);
                push_range(&mut r, &ov, 0, ov.len());
                string_push(&mut r, '/');
                let u_start = start_without(&url, '/');
                push_range(&mut r, &url, u_start, url.len());
                assert(url@.subrange(u_start as int, url.len() as int) =~= url@.skip(
                    u_start as int,
                ));
                assert(ov@.subrange(0, ov.len() as int) =~= ov@);
            },
            None => {
                push_range(&mut r, &url, 0, url.len());
            },
        }
    }
    assert(url@.subrange(0, url.len() as int) =~= url@);
    assert(r@ =~= spec_api_url(base_url@, path@, opt_view(origin)));
    r
}

/// The API timeout is the configured number of milliseconds when the text reads as
/// a `u64`, and fifteen seconds otherwise.
pub proof fn law_api_timeout(raw: Option<Seq<char>>)
    ensures
        raw matches Some(t) ==> (spec_u64_from_str(t) is Ok ==> spec_api_timeout_ms(raw)
            == spec_u64_from_str(t)->Ok_0),
        raw matches Some(t) ==> (spec_u64_from_str(t) is Err ==> spec_api_timeout_ms(raw) == 15_000),
        raw is None ==> spec_api_timeout_ms(raw) == 15_000,
{
    if let Some(t) = raw {
        lemma_parse_unsigned_bounds(t, u64::MAX as int);
    }
}

/// Debug mode is on for exactly the texts `true`, `1`, `yes` and `on`.
pub proof fn law_debug_mode(raw: Option<Seq<char>>)
    ensures
        spec_debug_mode(raw) <==> raw == Some("true"@) || raw == Some("1"@) || raw == Some("yes"@) || raw == Some(
            "on"@,
        ),
{
}

proof fn lemma_prefix_concat(a: Seq<char>, b: Seq<char>, x: Seq<char>)
    requires
        has_prefix(a, x),
    ensures
        has_prefix(a + b, x),
{
    assert((a + b).take(x.len() as int) =~= a.take(x.len() as int));
}

/// An API URL joins the base URL (without trailing `/`) and the path (without
/// leading `/`) with one `/`. An absolute base (`http://`, `https://`) is used as it
/// is, whatever the page's origin; a relative one goes under the origin when there
/// is one.
pub proof fn law_api_url(base_url: Seq<char>, path: Seq<char>, origin: Option<Seq<char>>)
    ensures
        ({
            let url = trim_end_char(base_url, '/') + seq!['/'] + trim_start_char(path, '/');
            let absolute = has_prefix(url, "http://"@) || has_prefix(url, "https://"@);
            &&& has_prefix(trim_end_char(base_url, '/'), "http://"@) || has_prefix(
                trim_end_char(base_url, '/'),
                "https://"@,
            ) ==> spec_api_url(base_url, path, origin) == url
            &&& !absolute && origin is None ==> spec_api_url(base_url, path, origin) == url
            &&& !absolute ==> (origin matches Some(o) ==> spec_api_url(base_url, path, origin) == o + seq!['/']
                + trim_start_char(url, '/'))
        }),
{
    let b = trim_end_char(base_url, '/');
    let rest = seq!['/'] + trim_start_char(path, '/');
    assert(b + seq!['/'] + trim_start_char(path, '/') =~= b + rest);
    if has_prefix(b, "http://"@) {
        lemma_prefix_concat(b, rest, "http://"@);
    }
    if has_prefix(b, "https://"@) {
        lemma_prefix_concat(b, rest, "https://"@);
    }
}

} // verus!
