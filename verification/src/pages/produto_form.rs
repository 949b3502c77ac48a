//! The product form: the photo's base64 payload.
use vstd::prelude::*;
use vstd::utf8::encode_utf8;
use crate::text::{
    find_chars, find_first, from_chars, lemma_find_from, occurs_at, opt_chars, slice_chars, to_chars, trim,
    trim_chars,
};

verus! {

/// The most base64 characters a product photo may have (the size of its column).
pub const MAX_FOTO_BASE64_CHARS: usize = 55_000;

/// The base64 part of a data URL: what follows the first `base64,`; the whole text
/// when there is none.
pub open spec fn payload_of(s: Seq<char>) -> Seq<char> {
    match find_first(s, "base64,"@) {
        Some(i) => s.skip(i + 7),
        None => s,
    }
}

fn payload_chars(v: &Vec<char>) -> (r: Vec<char>)
    ensures
        r@ == payload_of(v@),
{
    let pat = to_chars("base64,");
    proof {
        reveal_strlit("base64,");
    }
    match find_chars(v, &pat) {
        Some(i) => {
            proof {
                lemma_find_from(v@, pat@, 0);
                assert(pat@.len() == 7);
                assert(occurs_at(v@, pat@, i as int));
                assert(i + 7 <= v@.len());
            }
            assert(i + 7 <= v.len());
            let start: usize = i + 7;
            let r = slice_chars(v, start, v.len());
            assert(r@ =~= v@.skip(i + 7));
            r
        },
        None => {
            let r = slice_chars(v, 0, v.len());
            assert(r@ =~= v@);
            r
        },
    }
}

/// The length in bytes of the base64 part of a photo (see `payload_of`).
pub fn base64_payload_len(data_url_or_base64: &str) -> (r: usize)
    ensures
        r == encode_utf8(payload_of(data_url_or_base64@)).len() as usize,
{
    let v = to_chars(data_url_or_base64);
    let p = payload_chars(&v);
    let s = from_chars(&p);
    s.as_str().len()
}

/// The photo value sent to the API: the base64 part of the preview (see
/// `payload_of`), or empty when there is no photo.
pub fn foto_payload_value(preview_or_url: Option<String>) -> (r: String)
    ensures
        r@ == match opt_chars(preview_or_url) {
            Some(s) => payload_of(s),
            None => Seq::empty(),
        },
{
    match preview_or_url {
        Some(value) => {
            let v = to_chars(value.as_str());
            from_chars(&payload_chars(&v))
        },
        None => String::new(),
    }
}

/// What the product form sends: trimmed name and description, and the photo's
/// base64 part (empty without a photo); the price, a float, stays with the page.
#[derive(Debug)]
pub struct ProdutoParts {
    pub nome: String,
    pub descricao: String,
    pub foto: String,
}

/// The photo value sent for a preview (see `foto_payload_value`).
pub open spec fn foto_value_of(preview: Option<Seq<char>>) -> Seq<char> {
    match preview {
        Some(s) => payload_of(s),
        None => Seq::empty(),
    }
}

/// Why the product form cannot be sent, checked in order: the price does not read
/// as a number (`valor_ok`); empty trimmed name; empty trimmed description; the price
/// is not above zero (`valor_positive`); a photo longer than the column allows.
pub open spec fn produto_error(
    valor_ok: bool,
    valor_positive: bool,
    nome: Seq<char>,
    descricao: Seq<char>,
    preview: Option<Seq<char>>,
) -> Option<&'static str> {
    if !valor_ok {
        Some("Valor unitário inválido")
    } else if trim(nome).len() == 0 {
        Some("Nome do produto é obrigatório")
    } else if trim(descricao).len() == 0 {
        Some("Descrição do produto é obrigatória")
    } else if !valor_positive {
        Some("Valor unitário deve ser maior que zero")
    } else if encode_utf8(foto_value_of(preview)).len() as usize > MAX_FOTO_BASE64_CHARS {
        Some("A imagem é grande demais para o campo BLOB. Escolha uma imagem menor.")
    } else {
        None
    }
}

/// Submitting the product form (see `produto_error`).
pub fn validate_produto(
    valor_ok: bool,
    valor_positive: bool,
    nome: &str,
    descricao: &str,
    preview: Option<String>,
) -> (r: Result<ProdutoParts, &'static str>)
    ensures
        match r {
            Err(m) => produto_error(valor_ok, valor_positive, nome@, descricao@, opt_chars(preview)) == Some(m),
            Ok(p) => {
                &&& produto_error(valor_ok, valor_positive, nome@, descricao@, opt_chars(preview)) is None
                &&& p.nome@ == trim(nome@)
                &&& p.descricao@ == trim(descricao@)
                &&& p.foto@ == foto_value_of(opt_chars(preview))
            },
        },
{
    if !valor_ok {
        return Err("Valor unitário inválido");
    }
    let nome_value = from_chars(&trim_chars(&to_chars(nome)));
    let descricao_value = from_chars(&trim_chars(&to_chars(descricao)));
    if nome_value.as_str().is_empty() {
        return Err("Nome do produto é obrigatório");
    }
    if descricao_value.as_str().is_empty() {
        return Err("Descrição do produto é obrigatória");
    }
    if !valor_positive {
        return Err("Valor unitário deve ser maior que zero");
    }
    let foto = foto_payload_value(preview);
    if foto.as_str().len() > MAX_FOTO_BASE64_CHARS {
        return Err("A imagem é grande demais para o campo BLOB. Escolha uma imagem menor.");
    }
    Ok(ProdutoParts { nome: nome_value, descricao: descricao_value, foto })
}

/// The next step of the photo compression loop.
#[derive(Clone, Copy, Debug, PartialEq, Eq, Structural)]
pub enum CompressionStep {
    /// Keep this compressed image.
    Accept,
    /// Try the attempt with this index.
    Next(usize),
    /// No attempt gave a small enough image: drop the photo and warn.
    GiveUp,
}

/// After attempt `attempt` of `attempts` (each a smaller size and quality): a
/// compressed image (`Some`) whose base64 part fits the column is kept; otherwise,
/// or when drawing or encoding failed (`None`), the next attempt follows, and after
/// the last one the photo is given up.
pub fn compression_step(attempt: usize, attempts: usize, compressed: Option<&str>) -> (r: CompressionStep)
    requires
        attempt < attempts,
    ensures
        r == (if compressed matches Some(d) && encode_utf8(payload_of(d@)).len() as usize <= MAX_FOTO_BASE64_CHARS {
            CompressionStep::Accept
        } else if attempt + 1 < attempts {
            CompressionStep::Next((attempt + 1) as usize)
        } else {
            CompressionStep::GiveUp
        }),
{
    match compressed {
        Some(d) => {
            if base64_payload_len(d) <= MAX_FOTO_BASE64_CHARS {
                return CompressionStep::Accept;
            }
        },
        None => {},
    }
    if attempt + 1 < attempts {
        CompressionStep::Next(attempt + 1)
    } else {
        CompressionStep::GiveUp
    }
}

/// The product form takes a product whose price reads as a number above zero, with a
/// name and a description, and no photo or one whose base64 part fits the column.
pub proof fn law_produto_form_accepts_valid(nome: Seq<char>, descricao: Seq<char>, preview: Option<Seq<char>>)
    requires
        trim(nome).len() > 0,
        trim(descricao).len() > 0,
        preview matches Some(p) ==> encode_utf8(payload_of(p)).len() <= MAX_FOTO_BASE64_CHARS,
    ensures
        produto_error(true, true, nome, descricao, preview) is None,
{
    if preview is None {
        assert(encode_utf8(Seq::<char>::empty()) =~= Seq::<u8>::empty());
    }
}

/// Every refusal of the product form names a field that breaks its rule.
pub proof fn law_produto_form_errors_explained(
    valor_ok: bool,
    valor_positive: bool,
    nome: Seq<char>,
    descricao: Seq<char>,
    preview: Option<Seq<char>>,
)
    ensures
        ({
            let e = produto_error(valor_ok, valor_positive, nome, descricao, preview);
            &&& e == Some("Valor unitário inválido") ==> !valor_ok
            &&& e == Some("Nome do produto é obrigatório") ==> trim(nome).len() == 0
            &&& e == Some("Descrição do produto é obrigatória") ==> trim(descricao).len() == 0
            &&& e == Some("Valor unitário deve ser maior que zero") ==> !valor_positive
            &&& e == Some("A imagem é grande demais para o campo BLOB. Escolha uma imagem menor.") ==> (preview
                matches Some(p) && encode_utf8(payload_of(p)).len() as usize > MAX_FOTO_BASE64_CHARS)
        }),
{
    if preview is None {
        assert(encode_utf8(Seq::<char>::empty()) =~= Seq::<u8>::empty());
    }
}

} // verus!
