use comandas::components::common::navbar::{menu_items_for_group, MenuIcon};
use comandas::components::common::user_profile::format_cpf;
use comandas::constants::comanda_status::{status_config, status_from_i32, status_options, ComandaStatus};
use comandas::hooks::masks::{apply_cpf_mask, apply_phone_mask, only_digits};
use comandas::json::JsonValue;
use comandas::routes::private_route::{is_authorized, route_access, RouteAccess};
use comandas::shared::validation::{validar_cpf, validar_nome, validar_senha};
use comandas::utils::user_groups::{
    get_group_info, has_group, is_admin, is_admin_or_caixa, read_group, ADMINISTRADOR, ATENDENTE, CAIXA,
};

fn user(entries: Vec<(&str, JsonValue)>) -> JsonValue {
    JsonValue::Object(entries.into_iter().map(|(k, v)| (k.to_string(), v)).collect())
}

#[test]
fn only_digits_keeps_ascii_digits() {
    assert_eq!(only_digits("a1b2c3"), "123");
    assert_eq!(only_digits("123.456.789-01"), "12345678901");
    assert_eq!(only_digits("٣x"), "");
    assert_eq!(only_digits(""), "");
}

#[test]
fn cpf_mask_by_length() {
    assert_eq!(apply_cpf_mask(""), "");
    assert_eq!(apply_cpf_mask("123"), "123");
    assert_eq!(apply_cpf_mask("1234"), "123.4");
    assert_eq!(apply_cpf_mask("123456"), "123.456");
    assert_eq!(apply_cpf_mask("1234567"), "123.456.7");
    assert_eq!(apply_cpf_mask("123456789"), "123.456.789");
    assert_eq!(apply_cpf_mask("1234567890"), "123.456.789-0");
    assert_eq!(apply_cpf_mask("12345678901"), "123.456.789-01");
    assert_eq!(apply_cpf_mask("123456789012345"), "123.456.789-01");
    assert_eq!(apply_cpf_mask("abc123def456"), "123.456");
}

#[test]
fn cpf_mask_is_idempotent_and_keeps_digits() {
    for s in ["", "1", "12345", "12345678901", "98765432100999", "12.3a4"] {
        let once = apply_cpf_mask(s);
        assert_eq!(apply_cpf_mask(&once), once);
        let digits: String = only_digits(s).chars().take(11).collect();
        assert_eq!(only_digits(&once), digits);
    }
}

#[test]
fn phone_mask_by_length() {
    assert_eq!(apply_phone_mask(""), "");
    assert_eq!(apply_phone_mask("11"), "11");
    assert_eq!(apply_phone_mask("119"), "(11) 9");
    assert_eq!(apply_phone_mask("119876"), "(11) 9876");
    assert_eq!(apply_phone_mask("1198765"), "(11) 9876-5");
    assert_eq!(apply_phone_mask("1198765432"), "(11) 9876-5432");
    assert_eq!(apply_phone_mask("11987654321"), "(11) 98765-4321");
    assert_eq!(apply_phone_mask("1198765432100"), "(11) 98765-4321");
}

#[test]
fn phone_mask_is_idempotent_and_keeps_digits() {
    for s in ["", "1", "119", "1198765432", "11987654321", "(11) 98765-4321 ramal 9"] {
        let once = apply_phone_mask(s);
        assert_eq!(apply_phone_mask(&once), once);
        let digits: String = only_digits(s).chars().take(11).collect();
        assert_eq!(only_digits(&once), digits);
    }
}

#[test]
fn format_cpf_only_with_eleven_digits() {
    assert_eq!(format_cpf("12345678901"), "123.456.789-01");
    assert_eq!(format_cpf("123.456.789-01"), "123.456.789-01");
    assert_eq!(format_cpf("CPF 123 456 789 01"), "123.456.789-01");
    assert_eq!(format_cpf("1234"), "1234");
    assert_eq!(format_cpf("123456789012"), "123456789012");
    assert_eq!(format_cpf(""), "");
}

#[test]
fn validation_messages() {
    assert_eq!(validar_nome("Ana"), Ok(()));
    assert_eq!(validar_nome(""), Err("Nome é obrigatório"));
    assert_eq!(validar_nome(" \t "), Err("Nome é obrigatório"));
    assert_eq!(validar_cpf("123"), Ok(()));
    assert_eq!(validar_cpf("  "), Err("CPF é obrigatório"));
    assert_eq!(validar_senha(""), Err("Senha é obrigatória"));
    assert_eq!(validar_senha("12345"), Err("Senha deve ter pelo menos 6 caracteres"));
    assert_eq!(validar_senha("123456"), Ok(()));
    assert_eq!(validar_senha("      "), Ok(()));
    // Length counts characters, not bytes.
    assert_eq!(validar_senha("ééé"), Err("Senha deve ter pelo menos 6 caracteres"));
    assert_eq!(validar_senha("éééééé"), Ok(()));
}

#[test]
fn status_codes_round_trip() {
    for s in [ComandaStatus::Aberta, ComandaStatus::Fechada, ComandaStatus::Cancelada] {
        assert_eq!(status_from_i32(s.as_i32()), Some(s));
    }
    assert_eq!(ComandaStatus::Aberta.as_i32(), 0);
    assert_eq!(ComandaStatus::Fechada.as_i32(), 1);
    assert_eq!(ComandaStatus::Cancelada.as_i32(), 2);
    assert_eq!(status_from_i32(3), None);
    assert_eq!(status_from_i32(-1), None);
}

#[test]
fn status_configs() {
    let c = status_config(0);
    assert_eq!((c.label, c.badge_class), ("Aberta", "bg-emerald-100 text-emerald-700 border-emerald-200"));
    let c = status_config(1);
    assert_eq!((c.label, c.badge_class), ("Fechada", "bg-red-100 text-red-700 border-red-200"));
    let c = status_config(2);
    assert_eq!((c.label, c.badge_class), ("Cancelada", "bg-orange-100 text-orange-700 border-orange-200"));
    let c = status_config(9);
    assert_eq!((c.label, c.badge_class), ("Desconhecido", "bg-slate-100 text-slate-700 border-slate-200"));
}

#[test]
fn status_options_agree_with_configs() {
    let options = status_options();
    let pairs: Vec<(i32, &str)> = options.iter().map(|o| (o.value, o.label)).collect();
    assert_eq!(pairs, vec![(0, "Aberta"), (1, "Fechada"), (2, "Cancelada")]);
    for o in options {
        assert_eq!(status_config(o.value).label, o.label);
    }
}

#[test]
fn group_infos() {
    let g = get_group_info(Some(ADMINISTRADOR));
    assert_eq!((g.label, g.color_class), ("Administrador", "bg-red-100 text-red-700"));
    let g = get_group_info(Some(ATENDENTE));
    assert_eq!((g.label, g.color_class), ("Atendente", "bg-sky-100 text-sky-700"));
    let g = get_group_info(Some(CAIXA));
    assert_eq!((g.label, g.color_class), ("Caixa", "bg-emerald-100 text-emerald-700"));
    let g = get_group_info(Some(7));
    assert_eq!((g.label, g.color_class), ("Nao definido", "bg-slate-100 text-slate-700"));
    let g = get_group_info(None);
    assert_eq!(g.label, "Nao definido");
}

#[test]
fn reading_groups() {
    assert_eq!(read_group(&user(vec![("grupo", JsonValue::PosInt(1))])), Some(1));
    assert_eq!(read_group(&user(vec![("group", JsonValue::Str("3".to_string()))])), Some(3));
    assert_eq!(read_group(&user(vec![("role", JsonValue::NegInt(-2))])), Some(-2));
    // The first field present decides, even when it cannot be read.
    assert_eq!(
        read_group(&user(vec![("grupo", JsonValue::Null), ("group", JsonValue::PosInt(2))])),
        None
    );
    assert_eq!(read_group(&user(vec![("grupo", JsonValue::Str(" 2".to_string()))])), None);
    // Integers are cut to 32 bits as `as i32` does.
    assert_eq!(read_group(&user(vec![("grupo", JsonValue::PosInt(4_294_967_297))])), Some(1));
    assert_eq!(read_group(&user(vec![("nome", JsonValue::Str("Ana".to_string()))])), None);
    assert_eq!(read_group(&JsonValue::Str("1".to_string())), None);
}

#[test]
fn group_checks() {
    let admin = user(vec![("grupo", JsonValue::PosInt(1))]);
    let caixa = user(vec![("grupo", JsonValue::PosInt(3))]);
    let atendente = user(vec![("grupo", JsonValue::PosInt(2))]);
    let nobody = user(vec![]);
    assert!(has_group(None, &[]));
    assert!(has_group(Some(&nobody), &[]));
    assert!(!has_group(None, &[1]));
    assert!(!has_group(Some(&nobody), &[1, 2, 3]));
    assert!(has_group(Some(&atendente), &[1, 2]));
    assert!(is_admin(Some(&admin)));
    assert!(!is_admin(Some(&caixa)));
    assert!(is_admin_or_caixa(Some(&admin)));
    assert!(is_admin_or_caixa(Some(&caixa)));
    assert!(!is_admin_or_caixa(Some(&atendente)));
    assert!(!is_admin_or_caixa(None));
}

#[test]
fn menus_by_group() {
    let paths = |g: Option<i32>| -> Vec<&'static str> { menu_items_for_group(g).iter().map(|m| m.path).collect() };
    assert_eq!(paths(Some(1)), vec!["/home", "/funcionarios", "/clientes", "/produtos", "/comandas", "/caixa"]);
    assert_eq!(paths(Some(2)), vec!["/home", "/clientes", "/produtos", "/comandas"]);
    assert_eq!(paths(Some(3)), vec!["/home", "/clientes", "/produtos", "/comandas", "/caixa"]);
    assert_eq!(paths(None), vec!["/home", "/clientes", "/produtos", "/comandas"]);
    let admin = menu_items_for_group(Some(1));
    let labels: Vec<&str> = admin.iter().map(|m| m.label).collect();
    assert_eq!(labels, vec!["Dashboard", "Funcionarios", "Clientes", "Produtos", "Comandas", "Caixa"]);
    assert_eq!(admin[0].icon, MenuIcon::Gauge);
    assert_eq!(admin[5].icon, MenuIcon::CashRegister);
}

#[test]
fn route_access_decisions() {
    let admin = user(vec![("grupo", JsonValue::PosInt(1))]);
    let atendente = user(vec![("grupo", JsonValue::PosInt(2))]);
    let groups: &[i32] = &[1, 3];
    assert_eq!(route_access(true, false, None, None), RouteAccess::Waiting);
    assert_eq!(route_access(false, false, None, None), RouteAccess::RedirectToLogin);
    assert_eq!(route_access(false, true, None, None), RouteAccess::Granted);
    assert_eq!(route_access(false, true, Some(groups), Some(&admin)), RouteAccess::Granted);
    assert_eq!(route_access(false, true, Some(groups), Some(&atendente)), RouteAccess::Denied);
    assert!(is_authorized(false, true, Some(groups), Some(&admin)));
    assert!(!is_authorized(false, true, Some(groups), Some(&atendente)));
    assert!(!is_authorized(true, true, None, Some(&admin)));
    assert!(!is_authorized(false, false, None, Some(&admin)));
}
