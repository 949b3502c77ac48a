//! The navigation bar's menu.
use vstd::prelude::*;
use crate::utils::user_groups::{ADMINISTRADOR, CAIXA};

verus! {

/// The icon of a menu entry.
#[derive(Clone, Copy, Debug, PartialEq, Eq, Structural)]
pub enum MenuIcon {
    Gauge,
    UserGroup,
    User,
    Utensils,
    Receipt,
    CashRegister,
}

/// A menu entry: label, route and icon.
#[derive(Clone, Copy, Debug)]
pub struct MenuItem {
    pub label: &'static str,
    pub path: &'static str,
    pub icon: MenuIcon,
}

pub open spec fn item_view(m: MenuItem) -> (Seq<char>, Seq<char>, MenuIcon) {
    (m.label@, m.path@, m.icon)
}

/// The menu of a user in `group`: the dashboard; employees for administrators;
/// clients, products and comandas for everyone; the cash desk for administrators
/// and cashiers.
pub open spec fn spec_menu(group: Option<i32>) -> Seq<(Seq<char>, Seq<char>, MenuIcon)> {
    seq![("Dashboard"@, "/home"@, MenuIcon::Gauge)] + (if group == Some(ADMINISTRADOR) {
        seq![("Funcionarios"@, "/funcionarios"@, MenuIcon::UserGroup)]
    } else {
        Seq::empty()
    }) + seq![
        ("Clientes"@, "/clientes"@, MenuIcon::User),
        ("Produtos"@, "/produtos"@, MenuIcon::Utensils),
        ("Comandas"@, "/comandas"@, MenuIcon::Receipt),
    ] + (if group == Some(ADMINISTRADOR) || group == Some(CAIXA) {
        seq![("Caixa"@, "/caixa"@, MenuIcon::CashRegister)]
    } else {
        Seq::empty()
    })
}

/// The menu entries shown to a user in `group` (see `spec_menu`).
pub fn menu_items_for_group(group: Option<i32>) -> (r: Vec<MenuItem>)
    ensures
        r@.map_values(|m: MenuItem| item_view(m)) == spec_menu(group),
{
    let mut items: Vec<MenuItem> = Vec::new();
    items.push(MenuItem { label: "Dashboard", path: "/home", icon: MenuIcon::Gauge });
    if group == Some(ADMINISTRADOR) {
        items.push(MenuItem { label: "Funcionarios", path: "/funcionarios", icon: MenuIcon::UserGroup });
    }
    items.push(MenuItem { label: "Clientes", path: "/clientes", icon: MenuIcon::User });
    items.push(MenuItem { label: "Produtos", path: "/produtos", icon: MenuIcon::Utensils });
    items.push(MenuItem { label: "Comandas", path: "/comandas", icon: MenuIcon::Receipt });
    if group == Some(ADMINISTRADOR) || group == Some(CAIXA) {
        items.push(MenuItem { label: "Caixa", path: "/caixa", icon: MenuIcon::CashRegister });
    }
    assert(items@.map_values(|m: MenuItem| item_view(m)) =~= spec_menu(group));
    items
}

} // verus!
