use comandas::components::common::snackbar::{parse_snackbar_detail, severity_class, severity_title};
use comandas::json::{option_u32, string_or_default, user_id, user_name, value_string, value_u32, JsonValue};
use comandas::services::api::{
    error_message, should_refresh, storage_write_result, token_session_entries, ApiError, ApiErrorBody,
    AuthTokens, ListResponse, StorageWrite,
};
use comandas::services::auth_service::{
    is_authenticated, is_token_expiring_soon, login_error_message, login_request, mark_authenticated,
    AuthResult,
};
use comandas::services::caixa_service::{
    dashboard_endpoint, produtos, recebimento_endpoint_with_query, RecebimentoListParams,
};
use comandas::services::cliente_service::{endpoint_with_query as cliente_endpoint, ClienteListParams};
use comandas::services::comanda_service::{
    check_in_use_params, close_payload, comanda_endpoint_with_query, delete_check_params, deletion_confirmed,
    in_use_index, item_endpoint_with_query, ComandaItemListParams, ComandaListParams,
};
use comandas::services::funcionario_service::{endpoint_with_query as funcionario_endpoint, FuncionarioListParams};
use comandas::services::produto_service::{base64_image_mime, foto_to_src};
use comandas::uri::{encode_uri_component_str, endpoint_with_query, paging_query};
use comandas::utils::api_config::endpoints::{caixa, comanda, funcionario, recebimento};
use comandas::utils::api_config::{timeout_ms, url};
use comandas::utils::config::{api_timeout_ms, api_url, debug_mode};
use comandas::utils::snackbar::{show_confirm_snackbar, show_snackbar};

fn s(t: &str) -> String {
    t.to_string()
}

fn object(entries: Vec<(&str, JsonValue)>) -> JsonValue {
    JsonValue::Object(entries.into_iter().map(|(k, v)| (k.to_string(), v)).collect())
}

#[test]
fn encoding_like_encode_uri_component() {
    assert_eq!(encode_uri_component_str("ã b&"), "%C3%A3%20b%26");
    assert_eq!(encode_uri_component_str("AZaz09-_.!~*'()"), "AZaz09-_.!~*'()");
    assert_eq!(encode_uri_component_str("/?:@&=+$,#"), "%2F%3F%3A%40%26%3D%2B%24%2C%23");
    assert_eq!(encode_uri_component_str("😀"), "%F0%9F%98%80");
    assert_eq!(encode_uri_component_str("€"), "%E2%82%AC");
    assert_eq!(encode_uri_component_str(""), "");
}

#[test]
fn encoded_text_is_uri_safe() {
    for t in ["José da Silva", "a&b=c", "100%", "\u{0}\u{7f}ÿ", "東京"] {
        let e = encode_uri_component_str(t);
        assert!(e.chars().all(|c| c.is_ascii_alphanumeric() || "-_.!~*'()%".contains(c)), "{e}");
    }
}

#[test]
fn queries_and_endpoints() {
    assert_eq!(endpoint_with_query("/x", vec![]), "/x");
    assert_eq!(endpoint_with_query("/x", vec![s("a=1"), s("b=2")]), "/x?a=1&b=2");
    assert_eq!(paging_query(0, 10), vec![s("skip=0"), s("limit=10")]);
    let p = ClienteListParams {
        skip: 20,
        limit: 11,
        id: Some(5),
        nome: Some(s("Zé")),
        cpf: None,
        telefone: Some(s("(11) 9")),
    };
    assert_eq!(cliente_endpoint("/cliente/", &p), "/cliente/?skip=20&limit=11&id=5&nome=Z%C3%A9&telefone=(11)%209");
    let p = FuncionarioListParams {
        skip: 0,
        limit: 2,
        id: None,
        nome: None,
        matricula: Some(s("M1")),
        cpf: None,
        grupo: Some(s("3")),
        telefone: None,
    };
    assert_eq!(funcionario_endpoint(funcionario::LIST, &p), "/funcionario/?skip=0&limit=2&matricula=M1&grupo=3");
    let p = ComandaListParams {
        skip: 0,
        limit: 100,
        id: None,
        comanda: Some(s("A 1")),
        status: Some(0),
        funcionario_id: Some(s("4")),
        cliente_id: None,
        data_inicio: Some(s("2024-01-01")),
        data_fim: None,
    };
    assert_eq!(
        comanda_endpoint_with_query(comanda::LIST, &p),
        "/comanda/?skip=0&limit=100&comanda=A%201&status=0&funcionario_id=4&data_inicio=2024-01-01"
    );
    assert_eq!(
        item_endpoint_with_query(&comanda::list_items("7"), &ComandaItemListParams { skip: 5, limit: 6 }),
        "/comanda/7/produtos?skip=5&limit=6"
    );
    let p = RecebimentoListParams {
        skip: 0,
        limit: 11,
        id: None,
        funcionario_id: Some(2),
        cliente_id: None,
        data_inicio: None,
        data_fim: Some(s("2024-12-31")),
    };
    assert_eq!(
        recebimento_endpoint_with_query(recebimento::LIST, &p),
        "/recebimento/?skip=0&limit=11&funcionario_id=2&data_fim=2024-12-31"
    );
    assert_eq!(dashboard_endpoint(10, 21), "/caixa/dashboard?skip=10&limit=21");
    assert_eq!(caixa::SELECIONAR_COMANDAS, "/caixa/comandas/selecionar");
}

#[test]
fn resource_paths() {
    assert_eq!(funcionario::get("3"), "/funcionario/3");
    assert_eq!(comanda::cancel("9"), "/comanda/9/cancelar");
    assert_eq!(comanda::add_item("9"), "/comanda/9/produto");
    assert_eq!(comanda::update_item("9"), "/comanda/produto/9");
    assert_eq!(comanda::remove_item("9"), "/comanda/produto/9");
    assert_eq!(recebimento::comprovante("4"), "/recebimento/4/comprovante");
}

#[test]
fn configuration() {
    assert_eq!(api_timeout_ms(None), 15000);
    assert_eq!(api_timeout_ms(Some("2000")), 2000);
    assert_eq!(api_timeout_ms(Some("abc")), 15000);
    assert_eq!(api_timeout_ms(Some(" 5")), 15000);
    assert_eq!(timeout_ms(Some("7")), 7);
    for (raw, on) in [("true", true), ("1", true), ("yes", true), ("on", true), ("TRUE", false), ("", false)] {
        assert_eq!(debug_mode(Some(raw)), on, "{raw}");
    }
    assert!(!debug_mode(None));
    assert_eq!(api_url("/api", "/cliente/", Some("http://localhost:8080")), "http://localhost:8080/api/cliente/");
    assert_eq!(api_url("/api/", "/cliente/", None), "/api/cliente/");
    assert_eq!(api_url("https://x.com/api/", "/auth/login", Some("http://o")), "https://x.com/api/auth/login");
    assert_eq!(api_url("", "x", Some("o")), "o/x");
    assert_eq!(url("/api", "auth/me", Some("https://a.b")), "https://a.b/api/auth/me");
}

#[test]
fn snackbar_details_round_trip() {
    let d = show_snackbar("Salvo", "success");
    assert_eq!(d, "Salvo\0success");
    let m = parse_snackbar_detail(&d);
    assert_eq!((m.message.as_str(), m.severity.as_str()), ("Salvo", "success"));
    assert_eq!((m.confirm_label.as_str(), m.cancel_label.as_str(), m.action_id.as_str()), ("", "Cancelar", ""));
    let d = show_confirm_snackbar("Excluir?", "warning", "Sim", "Nao", "delete-comanda");
    assert_eq!(d, "Excluir?\0warning\0Sim\0Nao\0delete-comanda");
    let m = parse_snackbar_detail(&d);
    assert_eq!(m.message, "Excluir?");
    assert_eq!(m.severity, "warning");
    assert_eq!(m.confirm_label, "Sim");
    assert_eq!(m.cancel_label, "Nao");
    assert_eq!(m.action_id, "delete-comanda");
    let m = parse_snackbar_detail("so a mensagem");
    assert_eq!((m.message.as_str(), m.severity.as_str()), ("so a mensagem", "success"));
}

#[test]
fn snackbar_looks() {
    assert_eq!(severity_title("error"), "Erro");
    assert_eq!(severity_title("warning"), "Atenção");
    assert_eq!(severity_title("info"), "Info");
    assert_eq!(severity_title("success"), "Sucesso");
    assert_eq!(severity_title("other"), "Sucesso");
    assert_eq!(severity_class("error"), "bg-red-50 border-red-200 text-red-900");
    assert_eq!(severity_class("x"), "bg-emerald-50 border-emerald-200 text-emerald-900");
}

#[test]
fn api_errors_and_retries() {
    assert_eq!(error_message(None), "Erro desconhecido");
    assert_eq!(error_message(Some(ApiErrorBody { detail: Some(s("d")), message: Some(s("m")) })), "d");
    assert_eq!(error_message(Some(ApiErrorBody { detail: None, message: Some(s("m")) })), "m");
    assert_eq!(error_message(Some(ApiErrorBody { detail: None, message: None })), "Erro desconhecido");
    assert!(should_refresh(401, true));
    assert!(!should_refresh(401, false));
    assert!(!should_refresh(403, true));
    let e = ApiError::with_status(404, s("x"));
    assert_eq!((e.status, e.message.as_str()), (Some(404), "x"));
    assert_eq!(ApiError::new(s("y")).status, None);
}

#[test]
fn storage_answers() {
    assert!(storage_write_result("k", StorageWrite::Saved).is_ok());
    let e = storage_write_result("access_token", StorageWrite::Refused).unwrap_err();
    assert_eq!((e.status, e.message.as_str()), (None, "Nao foi possivel salvar access_token"));
    let e = storage_write_result("k", StorageWrite::Unavailable).unwrap_err();
    assert_eq!(e.message, "Session storage indisponivel");
    assert!(mark_authenticated(StorageWrite::Saved).is_ok());
    assert_eq!(mark_authenticated(StorageWrite::Refused).unwrap_err().message, "Nao foi possivel salvar loginRealizado");
    assert_eq!(mark_authenticated(StorageWrite::Unavailable).unwrap_err().message, "Session storage indisponivel");
}

#[test]
fn token_entries() {
    let tokens = AuthTokens {
        access_token: s("a"),
        refresh_token: s("r"),
        token_type: s("bearer"),
        expires_in: 60,
        refresh_expires_in: 3600,
    };
    let entries: Vec<(&str, String)> = token_session_entries(&tokens, 1_000);
    let expected = vec![
        ("access_token", s("a")),
        ("refresh_token", s("r")),
        ("token_type", s("bearer")),
        ("expires_in", s("60")),
        ("refresh_expires_in", s("3600")),
        ("expires_at", s("61000")),
        ("refresh_expires_at", s("3601000")),
        ("loginRealizado", s("true")),
    ];
    assert_eq!(entries, expected);
}

#[test]
fn sign_in_state() {
    assert!(is_authenticated(Some("t"), Some("2000"), 1999));
    assert!(!is_authenticated(Some("t"), Some("2000"), 2000));
    assert!(!is_authenticated(Some(""), Some("2000"), 0));
    assert!(!is_authenticated(None, Some("2000"), 0));
    assert!(!is_authenticated(Some("t"), None, 0));
    assert!(!is_authenticated(Some("t"), Some("soon"), 0));
    assert!(is_token_expiring_soon(None, 0));
    assert!(is_token_expiring_soon(Some("x"), 0));
    assert!(!is_token_expiring_soon(Some("1000000"), 700_000));
    assert!(is_token_expiring_soon(Some("1000000"), 700_001));
    assert!(!is_token_expiring_soon(Some("100"), 0));
    // Signed in with more than five minutes left: not expiring soon.
    assert!(is_authenticated(Some("t"), Some("400000"), 99_999));
    assert!(!is_token_expiring_soon(Some("400000"), 99_999));
}

#[test]
fn login_pieces() {
    let r = login_request("123.456.789-01", "segredo");
    assert_eq!((r.cpf.as_str(), r.senha.as_str()), ("12345678901", "segredo"));
    assert_eq!(login_error_message(s("")), "Erro ao realizar login");
    assert_eq!(login_error_message(s("CPF ou senha invalidos")), "CPF ou senha invalidos");
    let ok: AuthResult<u32> = AuthResult::success(3);
    assert!(ok.success && ok.data == Some(3) && ok.error.is_none());
    let err: AuthResult<u32> = AuthResult::error(s("falhou"));
    assert!(!err.success && err.data.is_none() && err.error == Some(s("falhou")));
}

#[test]
fn list_envelopes() {
    assert_eq!(ListResponse::List(vec![1, 2]).into_items(), vec![1, 2]);
    assert_eq!(ListResponse::Data { data: vec![3] }.into_items(), vec![3]);
    assert_eq!(ListResponse::Results { results: vec![4] }.into_items(), vec![4]);
    assert_eq!(ListResponse::<u8>::Items { items: vec![] }.into_items(), Vec::<u8>::new());
}

#[test]
fn comanda_checks() {
    assert!(check_in_use_params("  ").is_none());
    let p = check_in_use_params("A1").unwrap();
    assert_eq!((p.skip, p.limit, p.status, p.comanda.as_deref()), (0, 100, Some(0), Some("A1")));
    assert_eq!(in_use_index(&[4, 5], Some(4)), Some(1));
    assert_eq!(in_use_index(&[4, 4], Some(4)), None);
    assert_eq!(in_use_index(&[4], None), Some(0));
    assert_eq!(in_use_index(&[], None), None);
    let p = delete_check_params(8);
    assert_eq!((p.skip, p.limit, p.id, p.status), (0, 1, Some(8), None));
    assert!(deletion_confirmed(&[], 8));
    assert!(deletion_confirmed(&[1, 2], 8));
    assert!(!deletion_confirmed(&[1, 8], 8));
    assert_eq!(close_payload().status, 1);
}

#[test]
fn photos() {
    assert_eq!(foto_to_src(None), None);
    assert_eq!(foto_to_src(Some("   ")), None);
    assert_eq!(foto_to_src(Some(" http://x/y.png ")), Some(s("http://x/y.png")));
    assert_eq!(foto_to_src(Some("data:image/png;base64,AAA")), Some(s("data:image/png;base64,AAA")));
    assert_eq!(foto_to_src(Some("/static/a.png")), Some(s("/static/a.png")));
    assert_eq!(foto_to_src(Some("abc")), None);
    let png = "iVBORw0KGgoAAAANSUhEUgAAAAEAAAABCAYAAAAfFcSJAAAADUlEQVR42mNkYPhfDwAChwGA60e6kgAAAABJRU5ErkJggg==";
    assert_eq!(foto_to_src(Some(png)), Some(format!("data:image/png;base64,{png}")));
    let spaced = "/9j/4AAQ SkZJRgABAQAAAQABAAD/2wBDAAgGBgcGBQgHBwcJCQgKDBQNDAsLDBkSEw8U";
    let compact: String = spaced.chars().filter(|c| !c.is_whitespace()).collect();
    assert_eq!(foto_to_src(Some(spaced)), Some(format!("data:image/jpeg;base64,{compact}")));
    assert_eq!(base64_image_mime("/9j/xx"), "image/jpeg");
    assert_eq!(base64_image_mime("iVBORw0KGgoxx"), "image/png");
    assert_eq!(base64_image_mime("R0lGODxx"), "image/gif");
    assert_eq!(base64_image_mime("UklGRxx"), "image/webp");
    assert_eq!(base64_image_mime("Qkxx"), "image/bmp");
    assert_eq!(base64_image_mime("zzz"), "image/jpeg");
}

#[test]
fn lenient_json_fields() {
    let record = || {
        object(vec![
            ("id", JsonValue::PosInt(5)),
            ("big", JsonValue::PosInt(4_294_967_296)),
            ("txt", JsonValue::Str(s("7"))),
            ("nome", JsonValue::Str(s("  "))),
            ("name", JsonValue::Str(s("Ana"))),
        ])
    };
    let u = record();
    assert_eq!(value_u32(&u, "id"), Some(5));
    assert_eq!(value_u32(&u, "big"), None);
    assert_eq!(value_u32(&u, "txt"), Some(7));
    assert_eq!(value_u32(&u, "none"), None);
    assert_eq!(value_string(&u, "nome"), None);
    assert_eq!(value_string(&u, "name"), Some(s("Ana")));
    assert_eq!(user_name(Some(record())), Some(s("Ana")));
    assert_eq!(user_id(Some(record())), Some(5));
    let f = || object(vec![("funcionario_id", JsonValue::Str(s("9"))), ("usuario", JsonValue::Str(s("ze")))]);
    assert_eq!(user_id(Some(f())), Some(9));
    assert_eq!(user_name(Some(f())), Some(s("ze")));
    assert_eq!(user_id(None), None);
    let keys = ["nome", "name", "descricao"];
    assert_eq!(string_or_default(Some(&JsonValue::Str(s("x"))), &keys), "x");
    assert_eq!(string_or_default(Some(&JsonValue::NegInt(-3)), &keys), "-3");
    assert_eq!(string_or_default(Some(&JsonValue::Float(s("1.5"))), &keys), "1.5");
    assert_eq!(string_or_default(Some(&JsonValue::Bool(true)), &keys), "true");
    assert_eq!(string_or_default(Some(&object(vec![("descricao", JsonValue::Str(s("d")))])), &keys), "d");
    assert_eq!(string_or_default(Some(&object(vec![("nome", JsonValue::PosInt(1))])), &keys), "");
    assert_eq!(string_or_default(None, &keys), "");
    assert_eq!(option_u32(Some(&JsonValue::PosInt(3))), Ok(Some(3)));
    assert_eq!(option_u32(Some(&JsonValue::NegInt(-3))), Err("valor numerico invalido"));
    assert_eq!(option_u32(Some(&JsonValue::Float(s("1.5")))), Err("valor numerico invalido"));
    assert_eq!(option_u32(Some(&JsonValue::Str(s(" 12 ")))), Ok(Some(12)));
    assert_eq!(option_u32(Some(&JsonValue::Str(s("  ")))), Ok(None));
    assert_eq!(option_u32(Some(&JsonValue::Str(s("1x")))), Err("invalid digit found in string"));
    assert_eq!(option_u32(Some(&JsonValue::Null)), Ok(None));
    assert_eq!(option_u32(None), Ok(None));
}

#[test]
fn cash_desk_products() {
    assert_eq!(produtos(Some(vec![1, 2]), vec![3]), vec![1, 2]);
    assert_eq!(produtos(Some(vec![]), vec![3]), vec![3]);
    assert_eq!(produtos(None, vec![3]), vec![3]);
    assert_eq!(produtos::<u8>(None, vec![]), Vec::<u8>::new());
}
