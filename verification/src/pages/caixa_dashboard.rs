//! The cash desk dashboard: choosing comandas to receive.
use vstd::prelude::*;
use crate::number::{decimal, u32_to_string};
use crate::pages::display::{display_optional_id, spec_display_optional_id};
use crate::split::{piece_views, separator, split_by, split_chars, Separator};
use crate::text::{blank, from_chars, is_blank, owned, push_str, to_chars, trim, trim_chars};
use crate::uri::{endpoint_with_query, join, push_joined, views, with_query};

verus! {

/// The non-empty pieces, trimmed.
pub open spec fn trimmed_items(parts: Seq<Seq<char>>) -> Seq<Seq<char>>
    decreases parts.len(),
{
    if parts.len() == 0 {
        Seq::empty()
    } else {
        let prev = trimmed_items(parts.drop_last());
        if trim(parts.last()).len() == 0 {
            prev
        } else {
            prev.push(trim(parts.last()))
        }
    }
}

/// The items of a typed list: the text split at `,`, `;` and white-space
/// separators, each piece trimmed, empty pieces dropped.
pub open spec fn spec_parse_text_list(value: Seq<char>) -> Seq<Seq<char>> {
    trimmed_items(split_by(value, separator(Separator::List)))
}

/// The items of a typed list (see `spec_parse_text_list`).
pub fn parse_text_list(value: &str) -> (r: Vec<String>)
    ensures
        views(r@) == spec_parse_text_list(value@),
{
    let v = to_chars(value);
    let parts = split_chars(&v, Separator::List);
    let mut r: Vec<String> = Vec::new();
    let mut i: usize = 0;
    while i < parts.len()
        invariant
            i <= parts.len(),
            piece_views(parts@) == split_by(v@, separator(Separator::List)),
            views(r@) == trimmed_items(piece_views(parts@).take(i as int)),
        decreases parts.len() - i,
    {
        let t = trim_chars(&parts[i]);
        proof {
            let ps = piece_views(parts@);
            assert(ps.take(i + 1).drop_last() =~= ps.take(i as int));
            assert(ps.take(i + 1).last() == parts@[i as int]@);
        }
        if t.len() > 0 {
            r.push(from_chars(&t));
        }
        i = i + 1;
        assert(views(r@) =~= trimmed_items(piece_views(parts@).take(i as int)));
    }
    assert(piece_views(parts@).take(parts.len() as int) =~= piece_views(parts@));
    r
}

/// The ids as decimal texts.
pub open spec fn id_texts(ids: Seq<u32>) -> Seq<Seq<char>> {
    ids.map_values(|n: u32| decimal(n as nat))
}

/// The query of the payment page for the chosen comandas: `ids=` with the selected
/// ids joined by commas (when any), then `numeros=` with the typed comanda numbers
/// joined by commas (when any).
pub open spec fn receive_params(ids: Seq<u32>, manual: Seq<char>) -> Seq<Seq<char>> {
    (if ids.len() > 0 {
        seq!["ids="@ + join(id_texts(ids), ","@)]
    } else {
        Seq::empty()
    }) + (if spec_parse_text_list(manual).len() > 0 {
        seq!["numeros="@ + join(spec_parse_text_list(manual), ","@)]
    } else {
        Seq::empty()
    })
}

/// The route of the payment page for the chosen comandas:
/// `/caixa/receber`, with the query of `receive_params` when there is one.
pub fn receive_query(selected_ids: &[u32], manual_comandas: &str) -> (r: String)
    ensures
        r@ == with_query("/caixa/receber"@, receive_params(selected_ids@, manual_comandas@)),
{
    let mut query: Vec<String> = Vec::new();
    if selected_ids.len() > 0 {
        let mut texts: Vec<String> = Vec::new();
        let mut i: usize = 0;
        while i < selected_ids.len()
            invariant
                i <= selected_ids.len(),
                views(texts@) == id_texts(selected_ids@.take(i as int)),
            decreases selected_ids.len() - i,
        {
            let t = u32_to_string(selected_ids[i]);
            proof {
                assert(selected_ids@.take(i + 1) =~= selected_ids@.take(i as int).push(selected_ids@[i as int]));
            }
            let ghost before = texts@;
            texts.push(t);
            proof {
                assert(texts@ =~= before.push(t));
                assert(views(texts@) =~= views(before).push(t@));
                assert(id_texts(selected_ids@.take(i + 1)) =~= id_texts(selected_ids@.take(i as int)).push(
                    decimal(selected_ids@[i as int] as nat),
                ));
            }
            i = i + 1;
        }
        assert(selected_ids@.take(selected_ids.len() as int) =~= selected_ids@);
        let mut item = owned("ids=");
        push_joined(&mut item, &texts, ",");
        query.push(item);
    }
    let numeros = parse_text_list(manual_comandas);
    if numeros.len() > 0 {
        let mut item = owned("numeros=");
        push_joined(&mut item, &numeros, ",");
        query.push(item);
    }
    assert(views(query@) =~= receive_params(selected_ids@, manual_comandas@));
    endpoint_with_query("/caixa/receber", query)
}

/// A comanda's client as shown in the cash desk: its name; else the name in its
/// details; else its client id, or the one in its details; else `-`.
pub open spec fn spec_display_cliente(
    cliente_nome: Seq<char>,
    cliente_id: Option<u32>,
    detalhe: Option<(Seq<char>, Option<u32>)>,
) -> Seq<char> {
    let detalhe_nome: Option<Seq<char>> = match detalhe {
        Some((nome, _)) => if is_blank(nome) { None } else { Some(nome) },
        None => None,
    };
    if !is_blank(cliente_nome) {
        cliente_nome
    } else if let Some(nome) = detalhe_nome {
        nome
    } else {
        match cliente_id {
            Some(id) => decimal(id as nat),
            None => match detalhe {
                Some((_, did)) => spec_display_optional_id(did),
                None => "-"@,
            },
        }
    }
}

pub open spec fn detail_view(d: Option<(&str, Option<u32>)>) -> Option<(Seq<char>, Option<u32>)> {
    match d {
        Some(x) => Some((x.0@, x.1)),
        None => None,
    }
}

/// A comanda's client as shown in the cash desk (see `spec_display_cliente`);
/// `detalhe` holds the client name and id of the comanda's details, when it has them.
pub fn display_cliente(cliente_nome: &str, cliente_id: Option<u32>, detalhe: Option<(&str, Option<u32>)>) -> (r:
    String)
    ensures
        r@ == spec_display_cliente(cliente_nome@, cliente_id, detail_view(detalhe)),
{
    let nome = to_chars(cliente_nome);
    if !blank(&nome) {
        return owned(cliente_nome);
    }
    match detalhe {
        Some((dn, _)) => {
            let d = to_chars(dn);
            if !blank(&d) {
                return owned(dn);
            }
        },
        None => {},
    }
    match cliente_id {
        Some(id) => u32_to_string(id),
        None => match detalhe {
            Some((_, did)) => display_optional_id(did),
            None => owned("-"),
        },
    }
}

/// `ids` without any copy of `id`.
pub open spec fn without_id(ids: Seq<u32>, id: u32) -> Seq<u32>
    decreases ids.len(),
{
    if ids.len() == 0 {
        Seq::empty()
    } else if ids.last() == id {
        without_id(ids.drop_last(), id)
    } else {
        without_id(ids.drop_last(), id).push(ids.last())
    }
}

/// The selection after ticking (`selected`) or unticking the comanda `id`: ticking
/// adds it at the end unless it is already there; unticking removes it.
pub open spec fn spec_toggle_selection(ids: Seq<u32>, id: u32, selected: bool) -> Seq<u32> {
    if selected {
        if ids.contains(id) {
            ids
        } else {
            ids.push(id)
        }
    } else {
        without_id(ids, id)
    }
}

/// The selection after ticking or unticking a comanda (see `spec_toggle_selection`).
pub fn toggle_selection(ids: Vec<u32>, id: u32, selected: bool) -> (r: Vec<u32>)
    ensures
        r@ == spec_toggle_selection(ids@, id, selected),
{
    let mut out: Vec<u32> = Vec::new();
    let mut found = false;
    let mut i: usize = 0;
    while i < ids.len()
        invariant
            i <= ids.len(),
            out@ == without_id(ids@.take(i as int), id),
            found == ids@.take(i as int).contains(id),
        decreases ids.len() - i,
    {
        let x = ids[i];
        proof {
            assert(ids@.take(i + 1).drop_last() =~= ids@.take(i as int));
            assert(ids@.take(i + 1).last() == x);
            if ids@.take(i as int).contains(id) {
                let k = choose|k: int| 0 <= k < i && #[trigger] ids@.take(i as int)[k] == id;
                assert(ids@.take(i + 1)[k] == id);
            }
            if x == id {
                assert(ids@.take(i + 1)[i as int] == id);
            }
            if ids@.take(i + 1).contains(id) && x != id {
                let k = choose|k: int| 0 <= k < i + 1 && #[trigger] ids@.take(i + 1)[k] == id;
                assert(k < i);
                assert(ids@.take(i as int)[k] == id);
            }
        }
        if x == id {
            found = true;
        } else {
            out.push(x);
        }
        i = i + 1;
    }
    assert(ids@.take(ids.len() as int) =~= ids@);
    if selected {
        let mut v = ids;
        if !found {
            v.push(id);
        }
        v
    } else {
        out
    }
}

/// Going to the payment page: a warning when no comanda was chosen nor typed,
/// else the page's route (see `receive_query`).
pub fn go_to_recebimento(selected_ids: &[u32], manual_comandas: &str) -> (r: Result<String, &'static str>)
    ensures
        selected_ids.len() == 0 && spec_parse_text_list(manual_comandas@).len() == 0 ==> r == Err::<
            String,
            &'static str,
        >("Selecione ou informe pelo menos uma comanda."),
        !(selected_ids.len() == 0 && spec_parse_text_list(manual_comandas@).len() == 0) ==> (r matches Ok(
            route,
        ) && route@ == with_query("/caixa/receber"@, receive_params(selected_ids@, manual_comandas@))),
{
    if selected_ids.len() == 0 && parse_text_list(manual_comandas).len() == 0 {
        return Err("Selecione ou informe pelo menos uma comanda.");
    }
    Ok(receive_query(selected_ids, manual_comandas))
}

proof fn lemma_without_id_contains(ids: Seq<u32>, id: u32, x: u32)
    ensures
        without_id(ids, id).contains(x) <==> ids.contains(x) && x != id,
        without_id(ids, id).len() <= ids.len(),
    decreases ids.len(),
{
    if ids.len() > 0 {
        let front = ids.drop_last();
        lemma_without_id_contains(front, id, x);
        let w = without_id(front, id);
        if ids.contains(x) && x != id {
            let k = choose|k: int| 0 <= k < ids.len() && ids[k] == x;
            if k < ids.len() - 1 {
                assert(front[k] == x);
            }
        }
        if front.contains(x) {
            let k = choose|k: int| 0 <= k < front.len() && front[k] == x;
            assert(ids[k] == x);
        }
        if ids.last() != id {
            if w.push(ids.last()).contains(x) {
                let k = choose|k: int| 0 <= k < w.len() + 1 && w.push(ids.last())[k] == x;
                if k < w.len() {
                    assert(w[k] == x);
                } else {
                    assert(ids[ids.len() - 1] == x);
                }
            }
            if w.contains(x) {
                let k = choose|k: int| 0 <= k < w.len() && w[k] == x;
                assert(w.push(ids.last())[k] == x);
            }
            if x == ids.last() {
                assert(w.push(ids.last())[w.len() as int] == x);
            }
        }
    }
}

/// Ticking a comanda on the dashboard selects it and keeps every other selected
/// one, adding at most that one; unticking it removes it and keeps all the others.
pub proof fn law_toggle_selection(ids: Seq<u32>, id: u32, selected: bool, x: u32)
    ensures
        selected ==> spec_toggle_selection(ids, id, selected).contains(id),
        !selected ==> !spec_toggle_selection(ids, id, selected).contains(id),
        x != id ==> (spec_toggle_selection(ids, id, selected).contains(x) <==> ids.contains(x)),
        selected ==> spec_toggle_selection(ids, id, selected).len() <= ids.len() + 1,
        selected && ids.contains(id) ==> spec_toggle_selection(ids, id, selected) == ids,
        !selected ==> spec_toggle_selection(ids, id, selected).len() <= ids.len(),
{
    lemma_without_id_contains(ids, id, x);
    lemma_without_id_contains(ids, id, id);
    if selected && !ids.contains(id) {
        assert(ids.push(id)[ids.len() as int] == id);
        if ids.push(id).contains(x) && x != id {
            let k = choose|k: int| 0 <= k < ids.len() + 1 && ids.push(id)[k] == x;
            assert(ids[k] == x);
        }
        if ids.contains(x) {
            let k = choose|k: int| 0 <= k < ids.len() && ids[k] == x;
            assert(ids.push(id)[k] == x);
        }
    }
}

} // verus!
