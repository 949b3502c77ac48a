//! Products (`/produto`): how a stored photo becomes an image source.
use vstd::prelude::*;
use crate::text::{
    ascii_alphanumeric, from_chars, has_prefix, is_ascii_alphanumeric, is_whitespace, push_chars,
    push_str, starts_with, to_chars, trim, trim_chars, whitespace,
};
use crate::utils::config::opt_view;

verus! {

/// `s` without its white-space characters.
pub open spec fn without_whitespace(s: Seq<char>) -> Seq<char>
    decreases s.len(),
{
    if s.len() == 0 {
        Seq::empty()
    } else if is_whitespace(s.last()) {
        without_whitespace(s.drop_last())
    } else {
        without_whitespace(s.drop_last()).push(s.last())
    }
}

/// A character of the base64 alphabet.
pub open spec fn is_base64_char(c: char) -> bool {
    is_ascii_alphanumeric(c) || c == '+' || c == '/' || c == '='
}

/// Longer than 32 characters, all from the base64 alphabet.
pub open spec fn looks_like_base64(s: Seq<char>) -> bool {
    s.len() > 32 && forall|i: int| 0 <= i < s.len() ==> is_base64_char(#[trigger] s[i])
}

/// The image type told by the first characters of base64 data (JPEG when unknown).
pub open spec fn spec_base64_image_mime(s: Seq<char>) -> Seq<char> {
    if has_prefix(s, "/9j/"@) {
        "image/jpeg"@
    } else if has_prefix(s, "iVBORw0KGgo"@) {
        "image/png"@
    } else if has_prefix(s, "R0lGOD"@) {
        "image/gif"@
    } else if has_prefix(s, "UklGR"@) {
        "image/webp"@
    } else if has_prefix(s, "Qk"@) {
        "image/bmp"@
    } else {
        "image/jpeg"@
    }
}

/// The image source for a stored photo: nothing when there is no photo or it is
/// blank; data, `http://` and `https://` URLs as they are (trimmed); base64 data as
/// a data URL (white space removed, type told by its first characters); other
/// absolute paths as they are; nothing otherwise.
pub open spec fn spec_foto_to_src(foto: Option<Seq<char>>) -> Option<Seq<char>> {
    match foto {
        None => None,
        Some(raw) => {
            let f = trim(raw);
            if f.len() == 0 {
                None
            } else if has_prefix(f, "data:"@) || has_prefix(f, "http://"@) || has_prefix(
                f,
                "https://"@,
            ) {
                Some(f)
            } else if looks_like_base64(without_whitespace(f)) {
                let compact = without_whitespace(f);
                Some("data:"@ + spec_base64_image_mime(compact) + ";base64,"@ + compact)
            } else if has_prefix(f, "/"@) {
                Some(f)
            } else {
                None
            }
        },
    }
}

/// The image type told by the first characters of base64 data.
pub fn base64_image_mime(base64: &str) -> (r: &'static str)
    ensures
        r@ == spec_base64_image_mime(base64@),
{
    let v = to_chars(base64);
    if starts_with(&v, "/9j/") {
        "image/jpeg"
    } else if starts_with(&v, "iVBORw0KGgo") {
        "image/png"
    } else if starts_with(&v, "R0lGOD") {
        "image/gif"
    } else if starts_with(&v, "UklGR") {
        "image/webp"
    } else if starts_with(&v, "Qk") {
        "image/bmp"
    } else {
        "image/jpeg"
    }
}

fn remove_whitespace(v: &Vec<char>) -> (r: Vec<char>)
    ensures
        r@ == without_whitespace(v@),
{
    let mut r: Vec<char> = Vec::new();
    let mut i: usize = 0;
    while i < v.len()
        invariant
            i <= v.len(),
            r@ == without_whitespace(v@.take(i as int)),
        decreases v.len() - i,
    {
        proof {
            assert(v@.take(i + 1).drop_last() =~= v@.take(i as int));
            assert(v@.take(i + 1).last() == v@[i as int]);
        }
        if !whitespace(v[i]) {
            r.push(v[i]);
        }
        i = i + 1;
    }
    assert(v@.take(v.len() as int) =~= v@);
    r
}

fn all_base64(v: &Vec<char>) -> (r: bool)
    ensures
        r == forall|i: int| 0 <= i < v.len() ==> is_base64_char(#[trigger] v@[i]),
{
    let mut i: usize = 0;
    while i < v.len()
        invariant
            i <= v.len(),
            forall|k: int| 0 <= k < i ==> is_base64_char(#[trigger] v@[k]),
        decreases v.len() - i,
    {
        let c = v[i];
        if !(ascii_alphanumeric(c) || c == '+' || c == '/' || c == '=') {
            assert(!is_base64_char(v@[i as int]));
            return false;
        }
        i = i + 1;
    }
    true
}

/// The image source for a stored photo (see `spec_foto_to_src`).
pub fn foto_to_src(foto: Option<&str>) -> (r: Option<String>)
    ensures
        match r {
            Some(s) => spec_foto_to_src(opt_view(foto)) == Some(s@),
            None => spec_foto_to_src(opt_view(foto)) is None,
        },
{
    let raw = match foto {
        Some(f) => f,
        None => {
            return None;
        },
    };
    let v = to_chars(raw);
    let f = trim_chars(&v);
    if f.len() == 0 {
        return None;
    }
    if starts_with(&f, "data:") || starts_with(&f, "http://") || starts_with(&f, "https://") {
        let mut s = String::new();
        push_chars(&mut s, &f);
        assert(s@ =~= f@);
        return Some(s);
    }
    let compact = remove_whitespace(&f);
    if compact.len() > 32 && all_base64(&compact) {
        let compact_text = from_chars(&compact);
        let mut s = String::new();
        push_str(&mut s, "data:");
        push_str(&mut s, base64_image_mime(compact_text.as_str()));
        push_str(&mut s, ";base64,");
        push_chars(&mut s, &compact);
        assert(s@ =~= "data:"@ + spec_base64_image_mime(compact@) + ";base64,"@ + compact@);
        Some(s)
    } else if starts_with(&f, "/") {
        let mut s = String::new();
        push_chars(&mut s, &f);
        assert(s@ =~= f@);
        Some(s)
    } else {
        None
    }
}

/// Removing white space never lengthens a text.
proof fn lemma_without_whitespace_len(s: Seq<char>)
    ensures
        without_whitespace(s).len() <= s.len(),
    decreases s.len(),
{
    if s.len() > 0 {
        lemma_without_whitespace_len(s.drop_last());
    }
}

/// A stored photo that is already a link (a data URL, or an `http://` or
/// `https://` address, once trimmed) is shown from that link, unchanged.
pub proof fn law_foto_links_kept(raw: Seq<char>)
    requires
        has_prefix(trim(raw), "data:"@) || has_prefix(trim(raw), "http://"@) || has_prefix(
            trim(raw),
            "https://"@,
        ),
    ensures
        spec_foto_to_src(Some(raw)) == Some(trim(raw)),
{
    reveal_strlit("data:");
    reveal_strlit("http://");
    reveal_strlit("https://");
    assert(trim(raw).len() > 0);
}

/// No photo, or a blank one, shows nothing.
pub proof fn law_foto_blank_shows_nothing(raw: Seq<char>)
    requires
        trim(raw).len() == 0,
    ensures
        spec_foto_to_src(Some(raw)) is None,
        spec_foto_to_src(None) is None,
{
}

/// Whatever a photo shows is an image source: a data URL, a web address or an
/// absolute path.
pub proof fn law_foto_src_is_image_source(foto: Option<Seq<char>>)
    ensures
        spec_foto_to_src(foto) matches Some(src) ==> has_prefix(src, "data:"@) || has_prefix(src, "http://"@)
            || has_prefix(src, "https://"@) || has_prefix(src, "/"@),
{
    reveal_strlit("data:");
    if let Some(raw) = foto {
        let f = trim(raw);
        if f.len() > 0 && !(has_prefix(f, "data:"@) || has_prefix(f, "http://"@) || has_prefix(f, "https://"@))
            && looks_like_base64(without_whitespace(f)) {
            let compact = without_whitespace(f);
            let src = "data:"@ + spec_base64_image_mime(compact) + ";base64,"@ + compact;
            assert(src.take(5) =~= "data:"@);
        }
    }
}

/// A photo that is raw base64 (more than 32 base64 characters once white space is
/// removed, and not already a link) is shown as a data URL of that base64, with the
/// image type its first characters tell.
pub proof fn law_foto_base64_becomes_data_url(raw: Seq<char>)
    requires
        !(has_prefix(trim(raw), "data:"@) || has_prefix(trim(raw), "http://"@) || has_prefix(
            trim(raw),
            "https://"@,
        )),
        without_whitespace(trim(raw)).len() > 32,
        forall|i: int|
            0 <= i < without_whitespace(trim(raw)).len() ==> is_base64_char(
                #[trigger] without_whitespace(trim(raw))[i],
            ),
    ensures
        spec_foto_to_src(Some(raw)) == Some(
            "data:"@ + spec_base64_image_mime(without_whitespace(trim(raw))) + ";base64,"@ + without_whitespace(
                trim(raw),
            ),
        ),
{
    lemma_without_whitespace_len(trim(raw));
}

} // verus!
