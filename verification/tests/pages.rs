use comandas::components::common::cliente_filters::{cliente_filters_from_fields, has_active_filters};
use comandas::components::common::comanda_filters::ComandaFiltersState;
use comandas::components::common::filter_fields::{clean_digits, clean_text, parse_i32, parse_u32};
use comandas::components::common::funcionario_filters::FuncionarioFiltersState;
use comandas::components::common::pagination::{
    items_per_page_from_input, next_page, page_after_removal, page_request, page_window, previous_page,
};
use comandas::pages::caixa_dashboard::{display_cliente, parse_text_list, receive_query};
use comandas::pages::comanda_consumo_form::{find_product_name, ProdutoRef};
use comandas::pages::comanda_form::datetime_input_value;
use comandas::pages::comanda_list;
use comandas::pages::display::{display_datetime, display_name_or_id, display_optional_id};
use comandas::pages::funcionario_form::{limit_matricula, parse_grupo};
use comandas::pages::funcionario_list::{self, grupo_label};
use comandas::pages::produto_form::{base64_payload_len, foto_payload_value};
use comandas::pages::recebimento_form::{parse_u32_list, query_value, selection_payload};
use comandas::pages::recebimento_list::{self, RecebimentoFilters};

fn s(t: &str) -> String {
    t.to_string()
}

fn search_of(route: &str) -> &str {
    route.find('?').map(|i| &route[i..]).unwrap_or("")
}

#[test]
fn typed_lists() {
    assert_eq!(parse_text_list(" 7 ; A1,,\tB 2 "), vec![s("7"), s("A1"), s("B"), s("2")]);
    assert_eq!(parse_text_list(""), Vec::<String>::new());
    assert_eq!(parse_text_list(" ,; "), Vec::<String>::new());
    assert_eq!(parse_u32_list("1, 2;x 3\n4294967296 05"), vec![1, 2, 3, 5]);
    assert_eq!(parse_u32_list(""), Vec::<u32>::new());
}

#[test]
fn receive_routes() {
    assert_eq!(receive_query(&[3, 15], " 7 ; A1 "), "/caixa/receber?ids=3,15&numeros=7,A1");
    assert_eq!(receive_query(&[3], ""), "/caixa/receber?ids=3");
    assert_eq!(receive_query(&[], "A1"), "/caixa/receber?numeros=A1");
    assert_eq!(receive_query(&[], "  "), "/caixa/receber");
}

#[test]
fn query_values() {
    assert_eq!(query_value("?ids=1%2C2&numeros=a+b%20c", "ids"), Some(s("1,2")));
    assert_eq!(query_value("?ids=1%2C2&numeros=a+b%20c", "numeros"), Some(s("a b c")));
    assert_eq!(query_value("??x=1", "x"), Some(s("1")));
    assert_eq!(query_value("?x", "x"), None);
    assert_eq!(query_value("?x=1&x=2", "x"), Some(s("1")));
    assert_eq!(query_value("?a=b=c", "a"), Some(s("b=c")));
    assert_eq!(query_value("", "x"), None);
    assert_eq!(query_value("?y=1", "x"), None);
}

#[test]
fn selected_comandas_reach_the_payment_form() {
    for (ids, manual) in [(vec![3u32, 15], " 7 ; A1 "), (vec![0, u32::MAX], ""), (vec![42], "x&ids=9")] {
        let route = receive_query(&ids, manual);
        let value = query_value(search_of(&route), "ids").unwrap();
        assert_eq!(parse_u32_list(&value), ids);
    }
    for manual in ["A1 B2", "", "  "] {
        let route = receive_query(&[], manual);
        let ids = parse_u32_list(&query_value(search_of(&route), "ids").unwrap_or_default());
        assert_eq!(ids, Vec::<u32>::new());
    }
    // With no ids chosen, a typed `&ids=` would be read as ids.
    let route = receive_query(&[], "x&ids=9");
    assert_eq!(query_value(search_of(&route), "ids"), Some(s("9")));
    let route = receive_query(&[1], " 7 ; A1 ");
    let numeros = query_value(search_of(&route), "numeros").unwrap();
    assert_eq!(parse_text_list(&numeros), vec![s("7"), s("A1")]);
}

#[test]
fn selection_requests() {
    let r = selection_payload("1, 2", "A1 B2");
    assert_eq!(r.comanda_ids, Some(vec![1, 2]));
    assert_eq!(r.numeros_comandas, Some(vec![s("A1"), s("B2")]));
    let r = selection_payload("x", "  ");
    assert_eq!(r.comanda_ids, None);
    assert_eq!(r.numeros_comandas, None);
}

#[test]
fn cash_desk_clients() {
    assert_eq!(display_cliente("Ana", Some(1), Some(("Bia", Some(2)))), "Ana");
    assert_eq!(display_cliente(" ", Some(1), Some(("Bia", Some(2)))), "Bia");
    assert_eq!(display_cliente(" ", Some(1), Some((" ", Some(2)))), "1");
    assert_eq!(display_cliente("", None, Some(("", Some(2)))), "2");
    assert_eq!(display_cliente("", None, Some(("", None))), "-");
    assert_eq!(display_cliente("", None, None), "-");
}

#[test]
fn display_helpers() {
    assert_eq!(display_optional_id(None), "-");
    assert_eq!(display_optional_id(Some(4)), "4");
    assert_eq!(display_datetime(None), "-");
    assert_eq!(display_datetime(Some(s("  "))), "-");
    assert_eq!(display_datetime(Some(s("2024-01-02"))), "2024-01-02");
    assert_eq!(display_name_or_id("Ana", Some(1)), "Ana");
    assert_eq!(display_name_or_id(" ", Some(3)), "3");
    assert_eq!(display_name_or_id("", None), "-");
    assert_eq!(datetime_input_value(Some(s("2024-01-02T03:04:05.000Z"))), "2024-01-02T03:04");
    assert_eq!(datetime_input_value(Some(s("2024"))), "2024");
    assert_eq!(datetime_input_value(None), "");
}

#[test]
fn product_names() {
    let catalog = vec![
        ProdutoRef { id: 1, nome: s("Cafe") },
        ProdutoRef { id: 2, nome: s("Pao") },
        ProdutoRef { id: 2, nome: s("Outro pao") },
    ];
    assert_eq!(find_product_name(&catalog, "Suco", Some(1)), "Suco");
    assert_eq!(find_product_name(&catalog, " ", Some(2)), "Pao");
    assert_eq!(find_product_name(&catalog, "", Some(9)), "Produto nao encontrado");
    assert_eq!(find_product_name(&catalog, "", None), "Produto nao encontrado");
}

#[test]
fn employee_form_fields() {
    assert_eq!(limit_matricula("12345678901234"), "1234567890");
    assert_eq!(limit_matricula("ÁÉÍ"), "ÁÉÍ");
    assert_eq!(parse_grupo(" 2 "), Some(2));
    assert_eq!(parse_grupo("1"), Some(1));
    assert_eq!(parse_grupo("3"), Some(3));
    assert_eq!(parse_grupo("4"), None);
    assert_eq!(parse_grupo("0"), None);
    assert_eq!(parse_grupo("x"), None);
    assert_eq!(grupo_label(1), "Admin");
    assert_eq!(grupo_label(2), "Balcao");
    assert_eq!(grupo_label(3), "Caixa");
    assert_eq!(grupo_label(0), "Outro");
}

#[test]
fn product_photos() {
    assert_eq!(base64_payload_len("data:image/png;base64,QUJD"), 4);
    assert_eq!(base64_payload_len("abc"), 3);
    assert_eq!(base64_payload_len("ã"), 2);
    assert_eq!(foto_payload_value(None), "");
    assert_eq!(foto_payload_value(Some(s("data:image/jpeg;base64,XYZ"))), "XYZ");
    assert_eq!(foto_payload_value(Some(s("http://a/b.png"))), "http://a/b.png");
}

#[test]
fn filter_fields() {
    assert_eq!(clean_text(s(" a b ")), Some(s("a b")));
    assert_eq!(clean_text(s("  ")), None);
    assert_eq!(clean_digits(s("(11) 9")), Some(s("119")));
    assert_eq!(clean_digits(s("abc")), None);
    assert_eq!(parse_u32(" 12 "), Some(12));
    assert_eq!(parse_u32("-1"), None);
    assert_eq!(parse_i32(" -3 "), Some(-3));
    assert_eq!(parse_i32(""), None);
    let f = cliente_filters_from_fields(" 7", s(" Ana "), s("123.456"), s(""));
    assert_eq!(f.id, Some(7));
    assert_eq!(f.nome, Some(s("Ana")));
    assert_eq!(f.cpf, Some(s("123456")));
    assert_eq!(f.telefone, None);
    assert!(!has_active_filters(" ", "", "\t", ""));
    assert!(has_active_filters("", "", "", "1"));
}

#[test]
fn paging() {
    assert_eq!(items_per_page_from_input("0"), Some(1));
    assert_eq!(items_per_page_from_input("5000"), Some(1000));
    assert_eq!(items_per_page_from_input("25"), Some(25));
    assert_eq!(items_per_page_from_input("x"), None);
    assert_eq!(items_per_page_from_input(" 5"), None);
    assert_eq!(previous_page(1, false), None);
    assert_eq!(previous_page(3, false), Some(2));
    assert_eq!(previous_page(3, true), None);
    assert_eq!(next_page(3, false, true), Some(4));
    assert_eq!(next_page(3, false, false), None);
    assert_eq!(next_page(3, true, true), None);
    assert_eq!(page_after_removal(0), 1);
    assert_eq!(page_after_removal(2), 1);
    assert_eq!(page_after_removal(5), 4);
    assert_eq!(page_window(vec![1, 2, 3], 2), (vec![1, 2], true));
    assert_eq!(page_window(vec![1], 2), (vec![1], false));
    assert_eq!(page_request(3, 10), (20, 11));
    assert_eq!(page_request(0, 0), (0, 2));
    assert_eq!(page_request(2, 5000), (5000, 1000));
    assert_eq!(page_request(1, 999), (0, 1000));
}

#[test]
fn listing_requests() {
    let filters = ComandaFiltersState {
        id: Some(1),
        comanda: Some(s("A")),
        status: Some(2),
        funcionario_id: None,
        cliente_id: Some(s("3")),
        data_inicio: None,
        data_fim: None,
    };
    let p = comanda_list::list_params(2, 10, filters);
    assert_eq!((p.skip, p.limit, p.id, p.status), (10, 11, Some(1), Some(2)));
    assert_eq!((p.comanda, p.cliente_id), (Some(s("A")), Some(s("3"))));
    let p = funcionario_list::list_params(1, 20, FuncionarioFiltersState { grupo: Some(s("2")), ..Default::default() });
    assert_eq!((p.skip, p.limit, p.grupo), (0, 21, Some(s("2"))));
    let p = recebimento_list::list_params(
        4,
        0,
        RecebimentoFilters { cliente_id: Some(8), data_inicio: Some(s("2024-05-01")), ..Default::default() },
    );
    assert_eq!((p.skip, p.limit, p.cliente_id, p.data_inicio), (3, 2, Some(8), Some(s("2024-05-01"))));
    assert_eq!((p.id, p.funcionario_id, p.data_fim), (None, None, None));
}
