//! The consumption form of a comanda: naming the products of its items.
use vstd::prelude::*;
use crate::components::common::filter_fields::{parse_u32, spec_parse_u32};
use crate::number::{spec_u32_from_str, u32_from_str};
use crate::text::{blank, is_blank, owned, to_chars, trim};

verus! {

/// What the item list reads of a product: its id and its name.
#[derive(Debug, Clone)]
pub struct ProdutoRef {
    pub id: u32,
    pub nome: String,
}

/// The ids and names of the products, in order.
pub open spec fn catalog_view(ps: Seq<ProdutoRef>) -> Seq<(u32, Seq<char>)> {
    ps.map_values(|p: ProdutoRef| (p.id, p.nome@))
}

/// The name of the first product with id `id`.
pub open spec fn name_of_id(ps: Seq<(u32, Seq<char>)>, id: u32) -> Option<Seq<char>>
    decreases ps.len(),
{
    if ps.len() == 0 {
        None
    } else if ps[0].0 == id {
        Some(ps[0].1)
    } else {
        name_of_id(ps.drop_first(), id)
    }
}

/// An item's product name: the name the item carries when it is not blank; else the
/// name of the first product of the catalog with the item's product id; else
/// `Produto nao encontrado`.
pub open spec fn spec_find_product_name(
    ps: Seq<(u32, Seq<char>)>,
    produto_nome: Seq<char>,
    produto_id: Option<u32>,
) -> Seq<char> {
    if !is_blank(produto_nome) {
        produto_nome
    } else {
        match produto_id {
            Some(id) => match name_of_id(ps, id) {
                Some(n) => n,
                None => "Produto nao encontrado"@,
            },
            None => "Produto nao encontrado"@,
        }
    }
}

/// An item's product name (see `spec_find_product_name`).
pub fn find_product_name(produtos: &[ProdutoRef], produto_nome: &str, produto_id: Option<u32>) -> (r:
    String)
    ensures
        r@ == spec_find_product_name(catalog_view(produtos@), produto_nome@, produto_id),
{
    let v = to_chars(produto_nome);
    if !blank(&v) {
        return owned(produto_nome);
    }
    let id = match produto_id {
        Some(id) => id,
        None => return owned("Produto nao encontrado"),
    };
    let ghost cs = catalog_view(produtos@);
    let mut i: usize = 0;
    assert(cs.skip(0) =~= cs);
    while i < produtos.len()
        invariant
            i <= produtos.len(),
            cs == catalog_view(produtos@),
            is_blank(produto_nome@),
            produto_id == Some(id),
            name_of_id(cs, id) == name_of_id(cs.skip(i as int), id),
        decreases produtos.len() - i,
    {
        proof {
            assert(cs.skip(i as int)[0] == (produtos@[i as int].id, produtos@[i as int].nome@));
            assert(cs.skip(i as int).drop_first() =~= cs.skip(i + 1));
        }
        if produtos[i].id == id {
            return owned(produtos[i].nome.as_str());
        }
        i = i + 1;
    }
    owned("Produto nao encontrado")
}

/// What submitting the item form does.
#[derive(Debug, PartialEq, Eq)]
pub enum ConsumoAction {
    /// Show this message with this severity and send nothing.
    Warn(&'static str, &'static str),
    /// Change the quantity of the item being edited; the price is the one of the
    /// catalog product at `product_index` (zero when it is not in the catalog).
    Update { item_id: u32, quantidade: u32, product_index: Option<usize> },
    /// Add an item to the comanda, priced as above.
    Add { comanda_id: u32, produto_id: u32, quantidade: u32, funcionario_id: u32, product_index: Option<usize> },
}

/// The position of the first catalog product with id `id`.
pub open spec fn first_index(ids: Seq<u32>, id: u32) -> Option<int>
    decreases ids.len(),
{
    if ids.len() == 0 {
        None
    } else if ids[0] == id {
        Some(0)
    } else {
        match first_index(ids.drop_first(), id) {
            Some(k) => Some(k + 1),
            None => None,
        }
    }
}

pub open spec fn opt_index(o: Option<int>) -> Option<usize> {
    match o {
        Some(k) => Some(k as usize),
        None => None,
    }
}

/// A field read as a `u32` without trimming, when it is one.
pub open spec fn untrimmed_u32(value: Seq<char>) -> Option<u32> {
    match spec_u32_from_str(value) {
        Ok(n) => Some(n as u32),
        Err(_) => None,
    }
}

/// Submitting the item form of the comanda `route_id`, checked in order: a comanda;
/// a product id; a quantity that is a number and not zero; the responsible employee
/// (the one typed, else the signed-in user). Then the item being edited gets the
/// new quantity, or a new item is added.
pub open spec fn spec_consumo_submit(
    route_id: Option<u32>,
    produto: Seq<char>,
    quantidade: Seq<char>,
    funcionario: Seq<char>,
    user_id: Option<u32>,
    editing_item: Option<u32>,
    catalog_ids: Seq<u32>,
) -> ConsumoAction {
    let funcionario_id = match untrimmed_u32(funcionario) {
        Some(f) => Some(f),
        None => user_id,
    };
    match route_id {
        None => ConsumoAction::Warn("Comanda nao informada", "error"),
        Some(comanda_id) => match untrimmed_u32(produto) {
            None => ConsumoAction::Warn("Selecione um produto", "warning"),
            Some(produto_id) => match spec_parse_u32(quantidade) {
                None => ConsumoAction::Warn("Quantidade invalida", "warning"),
                Some(q) => if q == 0 {
                    ConsumoAction::Warn("Quantidade deve ser maior que zero", "warning")
                } else {
                    match funcionario_id {
                        None => ConsumoAction::Warn("Funcionario responsavel nao encontrado", "warning"),
                        Some(f) => match editing_item {
                            Some(item_id) => ConsumoAction::Update {
                                item_id,
                                quantidade: q as u32,
                                product_index: opt_index(first_index(catalog_ids, produto_id)),
                            },
                            None => ConsumoAction::Add {
                                comanda_id,
                                produto_id,
                                quantidade: q as u32,
                                funcionario_id: f,
                                product_index: opt_index(first_index(catalog_ids, produto_id)),
                            },
                        },
                    }
                },
            },
        },
    }
}

fn catalog_index(ids: &[u32], id: u32) -> (r: Option<usize>)
    ensures
        r == opt_index(first_index(ids@, id)),
{
    let mut i: usize = 0;
    assert(ids@.skip(0) =~= ids@);
    while i < ids.len()
        invariant
            i <= ids.len(),
            first_index(ids@, id) == match first_index(ids@.skip(i as int), id) {
                Some(k) => Some(k + i),
                None => None,
            },
        decreases ids.len() - i,
    {
        proof {
            assert(ids@.skip(i as int)[0] == ids@[i as int]);
            assert(ids@.skip(i as int).drop_first() =~= ids@.skip(i + 1));
        }
        if ids[i] == id {
            return Some(i);
        }
        i = i + 1;
    }
    None
}

fn read_u32(value: &str) -> (r: Option<u32>)
    ensures
        r == untrimmed_u32(value@),
{
    match u32_from_str(value) {
        Ok(n) => Some(n),
        Err(_) => None,
    }
}

/// What submitting the item form does (see `spec_consumo_submit`).
pub fn consumo_submit(
    route_id: Option<u32>,
    produto_text: &str,
    quantidade_text: &str,
    funcionario_text: &str,
    user_id: Option<u32>,
    editing_item: Option<u32>,
    catalog_ids: &[u32],
) -> (r: ConsumoAction)
    ensures
        r == spec_consumo_submit(
            route_id,
            produto_text@,
            quantidade_text@,
            funcionario_text@,
            user_id,
            editing_item,
            catalog_ids@,
        ),
{
    let comanda_id = match route_id {
        Some(c) => c,
        None => return ConsumoAction::Warn("Comanda nao informada", "error"),
    };
    let produto_id = match read_u32(produto_text) {
        Some(p) => p,
        None => return ConsumoAction::Warn("Selecione um produto", "warning"),
    };
    let quantidade = match parse_u32(quantidade_text) {
        Some(q) => q,
        None => return ConsumoAction::Warn("Quantidade invalida", "warning"),
    };
    if quantidade == 0 {
        return ConsumoAction::Warn("Quantidade deve ser maior que zero", "warning");
    }
    let funcionario_id = match read_u32(funcionario_text) {
        Some(f) => Some(f),
        None => user_id,
    };
    let funcionario_id = match funcionario_id {
        Some(f) => f,
        None => return ConsumoAction::Warn("Funcionario responsavel nao encontrado", "warning"),
    };
    let product_index = catalog_index(catalog_ids, produto_id);
    match editing_item {
        Some(item_id) => ConsumoAction::Update { item_id, quantidade, product_index },
        None => ConsumoAction::Add { comanda_id, produto_id, quantidade, funcionario_id, product_index },
    }
}

/// The catalog position found for a product is the first one holding its id; none
/// is found only when the catalog does not hold it.
pub proof fn law_first_index(ids: Seq<u32>, id: u32)
    ensures
        first_index(ids, id) matches Some(k) ==> 0 <= k < ids.len() && ids[k] == id && forall|j: int|
            0 <= j < k ==> ids[j] != id,
        first_index(ids, id) is None ==> forall|j: int| 0 <= j < ids.len() ==> ids[j] != id,
    decreases ids.len(),
{
    if ids.len() > 0 {
        law_first_index(ids.drop_first(), id);
        if ids[0] != id {
            assert forall|j: int| 0 <= j < ids.len() && first_index(ids, id) is None implies ids[j] != id by {
                if j > 0 {
                    assert(ids[j] == ids.drop_first()[j - 1]);
                }
            }
            if let Some(k) = first_index(ids, id) {
                assert forall|j: int| 0 <= j < k implies ids[j] != id by {
                    if j > 0 {
                        assert(ids[j] == ids.drop_first()[j - 1]);
                    }
                }
                assert(ids[k] == ids.drop_first()[k - 1]);
            }
        }
    }
}

/// Submitting a valid item (a comanda, a product id, a quantity above zero and a
/// responsible employee: the one typed, else the signed-in user) changes the edited
/// item's quantity, or adds an item with exactly those values; each field that is
/// missing or wrong gives its warning instead.
pub proof fn law_consumo_submit(
    route_id: Option<u32>,
    produto: Seq<char>,
    quantidade: Seq<char>,
    funcionario: Seq<char>,
    user_id: Option<u32>,
    editing_item: Option<u32>,
    catalog_ids: Seq<u32>,
)
    ensures
        ({
            let r = spec_consumo_submit(route_id, produto, quantidade, funcionario, user_id, editing_item, catalog_ids);
            let p = spec_u32_from_str(produto);
            let q = spec_u32_from_str(trim(quantidade));
            let f = spec_u32_from_str(funcionario);
            let valid = route_id is Some && p is Ok && q is Ok && q->Ok_0 > 0 && (f is Ok || user_id is Some);
            &&& route_id is None ==> r == ConsumoAction::Warn("Comanda nao informada", "error")
            &&& route_id is Some && p is Err ==> r == ConsumoAction::Warn("Selecione um produto", "warning")
            &&& route_id is Some && p is Ok && q is Err ==> r == ConsumoAction::Warn("Quantidade invalida", "warning")
            &&& route_id is Some && p is Ok && q is Ok && q->Ok_0 == 0 ==> r == ConsumoAction::Warn(
                "Quantidade deve ser maior que zero",
                "warning",
            )
            &&& route_id is Some && p is Ok && q is Ok && q->Ok_0 > 0 && f is Err && user_id is None ==> r
                == ConsumoAction::Warn("Funcionario responsavel nao encontrado", "warning")
            &&& valid && editing_item is Some ==> r == ConsumoAction::Update {
                item_id: editing_item->0,
                quantidade: q->Ok_0 as u32,
                product_index: opt_index(first_index(catalog_ids, p->Ok_0 as u32)),
            }
            &&& valid && editing_item is None ==> r == ConsumoAction::Add {
                comanda_id: route_id->0,
                produto_id: p->Ok_0 as u32,
                quantidade: q->Ok_0 as u32,
                funcionario_id: if f is Ok {
                    f->Ok_0 as u32
                } else {
                    user_id->0
                },
                product_index: opt_index(first_index(catalog_ids, p->Ok_0 as u32)),
            }
        }),
{
}

} // verus!
