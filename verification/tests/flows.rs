use comandas::components::common::list_flow::{
    accept_response, after_delete, apply_page, next_request, on_confirm, DeleteStep, PageStep,
};
use comandas::components::common::snackbar::{
    shows_actions, snackbar_initial, snackbar_step, SnackbarAction, SnackbarEvent, SNACKBAR_AUTO_CLOSE_MS,
};
use comandas::pages::caixa_dashboard::{go_to_recebimento, toggle_selection};
use comandas::pages::cliente_form::cliente_submit;
use comandas::pages::comanda_consumo_form::{consumo_submit, ConsumoAction};
use comandas::pages::comanda_form::comanda_submit;
use comandas::pages::funcionario_form::{funcionario_submit, FuncionarioSubmit};
use comandas::pages::produto_form::{compression_step, validate_produto, CompressionStep};
use comandas::pages::recebimento_form::{recebimento_submit, RecebimentoStep};

fn s(t: &str) -> String {
    t.to_string()
}

#[test]
fn page_steps() {
    match apply_page(2, 2, Vec::<u8>::new()) {
        PageStep::GoBack(p) => assert_eq!(p, 1),
        other => panic!("{other:?}"),
    }
    match apply_page(1, 2, Vec::<u8>::new()) {
        PageStep::Show(items, more) => assert!(items.is_empty() && !more),
        other => panic!("{other:?}"),
    }
    match apply_page(3, 2, vec![1, 2, 3]) {
        PageStep::Show(items, more) => assert_eq!((items, more), (vec![1, 2], true)),
        other => panic!("{other:?}"),
    }
    match apply_page(1, 0, vec![7, 8]) {
        PageStep::Show(items, more) => assert_eq!((items, more), (vec![7], true)),
        other => panic!("{other:?}"),
    }
    match apply_page(1, 5, vec![7, 8]) {
        PageStep::Show(items, more) => assert_eq!((items, more), (vec![7, 8], false)),
        other => panic!("{other:?}"),
    }
}

#[test]
fn stale_answers_and_request_numbers() {
    assert!(accept_response(4, 4));
    assert!(!accept_response(3, 4));
    assert_eq!(next_request(0), 1);
    assert_eq!(next_request(usize::MAX), 0);
}

#[test]
fn deletions() {
    assert_eq!(after_delete(false, 1, 3), DeleteStep::Failed);
    assert_eq!(after_delete(true, 1, 3), DeleteStep::PreviousPage(2));
    assert_eq!(after_delete(true, 0, 2), DeleteStep::PreviousPage(1));
    assert_eq!(after_delete(true, 1, 1), DeleteStep::Refresh);
    assert_eq!(after_delete(true, 3, 3), DeleteStep::Refresh);
    assert_eq!(on_confirm("delete-comanda", "delete-comanda", Some(9u32)), (None, Some(9)));
    assert_eq!(on_confirm("cancel-comanda", "delete-comanda", Some(9u32)), (Some(9), None));
    assert_eq!(on_confirm::<u32>("delete-comanda", "delete-comanda", None), (None, None));
}

#[test]
fn snackbar_protocol() {
    let state = snackbar_initial();
    assert!(!state.open);
    assert_eq!(state.message.severity, "success");
    let (state, action) = snackbar_step(state, SnackbarEvent::Show(s("Salvo\0success")));
    assert!(state.open && !shows_actions(&state));
    assert_eq!(state.message.message, "Salvo");
    assert!(matches!(action, SnackbarAction::StartTimer(SNACKBAR_AUTO_CLOSE_MS)));
    assert_eq!(SNACKBAR_AUTO_CLOSE_MS, 4000);
    let (state, action) = snackbar_step(state, SnackbarEvent::TimerElapsed);
    assert!(!state.open && matches!(action, SnackbarAction::Nothing));
    let (state, action) = snackbar_step(state, SnackbarEvent::Show(s("Excluir?\0warning\0Sim\0Nao\0del-1")));
    assert!(state.open && shows_actions(&state));
    assert!(matches!(action, SnackbarAction::Nothing));
    let (state, action) = snackbar_step(state, SnackbarEvent::Confirm);
    assert!(!state.open);
    match action {
        SnackbarAction::DispatchConfirmed(id) => assert_eq!(id, "del-1"),
        other => panic!("{other:?}"),
    }
    let (state, _) = snackbar_step(state, SnackbarEvent::Show(s("Oi")));
    let (state, action) = snackbar_step(state, SnackbarEvent::Confirm);
    assert!(!state.open && matches!(action, SnackbarAction::Nothing));
    let (state, _) = snackbar_step(state, SnackbarEvent::Show(s("x\0info\0S\0N\0a")));
    let (state, action) = snackbar_step(state, SnackbarEvent::Cancel);
    assert!(!state.open && matches!(action, SnackbarAction::Nothing));
}

#[test]
fn dashboard_selection() {
    assert_eq!(toggle_selection(vec![1, 2], 3, true), vec![1, 2, 3]);
    assert_eq!(toggle_selection(vec![1, 2], 2, true), vec![1, 2]);
    assert_eq!(toggle_selection(vec![1, 2, 1], 1, false), vec![2]);
    assert_eq!(toggle_selection(vec![], 1, false), Vec::<u32>::new());
    assert_eq!(go_to_recebimento(&[], " , "), Err("Selecione ou informe pelo menos uma comanda."));
    assert_eq!(go_to_recebimento(&[4], ""), Ok(s("/caixa/receber?ids=4")));
    assert_eq!(go_to_recebimento(&[], "A1"), Ok(s("/caixa/receber?numeros=A1")));
}

#[test]
fn item_form() {
    let catalog = [5, 7, 7];
    assert_eq!(consumo_submit(None, "7", "1", "2", None, None, &catalog), ConsumoAction::Warn("Comanda nao informada", "error"));
    assert_eq!(consumo_submit(Some(1), "", "1", "2", None, None, &catalog), ConsumoAction::Warn("Selecione um produto", "warning"));
    assert_eq!(consumo_submit(Some(1), " 7", "1", "2", None, None, &catalog), ConsumoAction::Warn("Selecione um produto", "warning"));
    assert_eq!(consumo_submit(Some(1), "7", "x", "2", None, None, &catalog), ConsumoAction::Warn("Quantidade invalida", "warning"));
    assert_eq!(
        consumo_submit(Some(1), "7", " 0 ", "2", None, None, &catalog),
        ConsumoAction::Warn("Quantidade deve ser maior que zero", "warning")
    );
    assert_eq!(
        consumo_submit(Some(1), "7", "2", "", None, None, &catalog),
        ConsumoAction::Warn("Funcionario responsavel nao encontrado", "warning")
    );
    assert_eq!(
        consumo_submit(Some(1), "7", " 2 ", "", Some(9), None, &catalog),
        ConsumoAction::Add { comanda_id: 1, produto_id: 7, quantidade: 2, funcionario_id: 9, product_index: Some(1) }
    );
    assert_eq!(
        consumo_submit(Some(1), "8", "3", "4", Some(9), None, &catalog),
        ConsumoAction::Add { comanda_id: 1, produto_id: 8, quantidade: 3, funcionario_id: 4, product_index: None }
    );
    assert_eq!(
        consumo_submit(Some(1), "5", "3", "4", None, Some(11), &catalog),
        ConsumoAction::Update { item_id: 11, quantidade: 3, product_index: Some(0) }
    );
}

#[test]
fn comanda_form() {
    assert_eq!(comanda_submit("abc", s(""), "1", None, 0).unwrap_err(), "Numero da comanda e obrigatorio");
    assert_eq!(comanda_submit("12", s(""), "x", None, 0).unwrap_err(), "Funcionario responsavel nao encontrado");
    let p = comanda_submit("A-12", s(" 3 "), "", Some(5), 1).unwrap();
    assert_eq!((p.comanda.as_str(), p.cliente_id.as_deref(), p.funcionario_id, p.status), ("12", Some("3"), Some(5), 1));
    let p = comanda_submit("7", s("  "), " 4 ", Some(5), 0).unwrap();
    assert_eq!((p.cliente_id, p.funcionario_id), (None, Some(4)));
}

#[test]
fn employee_form() {
    let ok = |editing: bool, senha: &str| funcionario_submit(editing, " Ana ", " M1 ", "123.456.789-01", "(11) 98765-4321", "2", senha);
    assert_eq!(funcionario_submit(false, "Ana", "M1", "12345678901", "1198765432", "4", "x").unwrap_err(), "Grupo deve ser 1, 2 ou 3");
    assert_eq!(funcionario_submit(false, " ", "M1", "12345678901", "1198765432", "1", "x").unwrap_err(), "Nome do funcionario e obrigatorio");
    assert_eq!(funcionario_submit(false, "Ana", "", "12345678901", "1198765432", "1", "x").unwrap_err(), "Matricula do funcionario e obrigatoria");
    assert_eq!(
        funcionario_submit(false, "Ana", "12345678901", "12345678901", "1198765432", "1", "x").unwrap_err(),
        "Matricula deve ter no maximo 10 caracteres"
    );
    assert_eq!(funcionario_submit(false, "Ana", "M1", "abc", "1198765432", "1", "x").unwrap_err(), "CPF do funcionario e obrigatorio");
    assert_eq!(funcionario_submit(false, "Ana", "M1", "123", "1198765432", "1", "x").unwrap_err(), "CPF deve ter 11 digitos");
    assert_eq!(funcionario_submit(false, "Ana", "M1", "12345678901", "", "1", "x").unwrap_err(), "Telefone do funcionario e obrigatorio");
    assert_eq!(funcionario_submit(false, "Ana", "M1", "12345678901", "119", "1", "x").unwrap_err(), "Telefone deve ter 10 ou 11 digitos");
    assert_eq!(ok(false, "  ").unwrap_err(), "Senha do funcionario e obrigatoria");
    match ok(false, " s3nha ").unwrap() {
        FuncionarioSubmit::Create(p) => {
            assert_eq!((p.nome.as_str(), p.matricula.as_str(), p.senha.as_str()), ("Ana", "M1", "s3nha"));
            assert_eq!((p.cpf.as_str(), p.telefone.as_str(), p.grupo), ("12345678901", "11987654321", 2));
        },
        other => panic!("{other:?}"),
    }
    match ok(true, " ").unwrap() {
        FuncionarioSubmit::Update(p) => {
            assert_eq!((p.nome, p.grupo, p.senha), (Some(s("Ana")), Some(2), None));
        },
        other => panic!("{other:?}"),
    }
}

#[test]
fn product_form() {
    assert_eq!(validate_produto(false, false, "", "", None).unwrap_err(), "Valor unitário inválido");
    assert_eq!(validate_produto(true, true, " ", "d", None).unwrap_err(), "Nome do produto é obrigatório");
    assert_eq!(validate_produto(true, true, "n", "", None).unwrap_err(), "Descrição do produto é obrigatória");
    assert_eq!(validate_produto(true, false, "n", "d", None).unwrap_err(), "Valor unitário deve ser maior que zero");
    let big = format!("data:image/jpeg;base64,{}", "A".repeat(55_001));
    assert_eq!(
        validate_produto(true, true, "n", "d", Some(big)).unwrap_err(),
        "A imagem é grande demais para o campo BLOB. Escolha uma imagem menor."
    );
    let p = validate_produto(true, true, " Cafe ", " Quente ", Some(s("data:image/png;base64,QUJD"))).unwrap();
    assert_eq!((p.nome.as_str(), p.descricao.as_str(), p.foto.as_str()), ("Cafe", "Quente", "QUJD"));
    assert_eq!(validate_produto(true, true, "n", "d", None).unwrap().foto, "");
    let fits = "data:image/jpeg;base64,AAAA";
    let too_big = format!("data:image/jpeg;base64,{}", "A".repeat(55_001));
    assert_eq!(compression_step(0, 7, Some(fits)), CompressionStep::Accept);
    assert_eq!(compression_step(0, 7, Some(&too_big)), CompressionStep::Next(1));
    assert_eq!(compression_step(3, 7, None), CompressionStep::Next(4));
    assert_eq!(compression_step(6, 7, Some(&too_big)), CompressionStep::GiveUp);
    assert_eq!(compression_step(6, 7, None), CompressionStep::GiveUp);
}

#[test]
fn payment_form() {
    let step = |editing, d, a, n, ids: &str, numeros: &str| recebimento_submit(editing, d, a, n, " 4 ", " obs ", ids, numeros);
    assert!(matches!(step(false, false, true, true, "1", ""), RecebimentoStep::Warn("Desconto invalido")));
    assert!(matches!(step(false, true, false, true, "1", ""), RecebimentoStep::Warn("Acrescimo invalido")));
    assert!(matches!(
        step(false, true, true, false, "1", ""),
        RecebimentoStep::Warn("Desconto e acrescimo nao podem ser negativos.")
    ));
    assert!(matches!(
        step(false, true, true, true, "x", " "),
        RecebimentoStep::Warn("Informe pelo menos uma comanda para receber.")
    ));
    match step(true, true, true, true, "", "") {
        RecebimentoStep::Update { cliente_id, observacao } => assert_eq!((cliente_id, observacao), (Some(4), Some(s("obs")))),
        other => panic!("{other:?}"),
    }
    match step(false, true, true, true, "1,2", "A1") {
        RecebimentoStep::Create { comanda_ids, numeros_comandas, cliente_id, observacao } => {
            assert_eq!(comanda_ids, Some(vec![1, 2]));
            assert_eq!(numeros_comandas, Some(vec![s("A1")]));
            assert_eq!((cliente_id, observacao), (Some(4), Some(s("obs"))));
        },
        other => panic!("{other:?}"),
    }
    match recebimento_submit(false, true, true, true, "x", "", "", "B") {
        RecebimentoStep::Create { comanda_ids, numeros_comandas, cliente_id, observacao } => {
            assert_eq!((comanda_ids, numeros_comandas, cliente_id, observacao), (None, Some(vec![s("B")]), None, None));
        },
        other => panic!("{other:?}"),
    }
}

#[test]
fn client_form() {
    let submit = cliente_submit;
    assert_eq!(submit(" ", "1", "1").unwrap_err(), "Nome do cliente e obrigatorio");
    assert_eq!(submit("Ana", "x", "1").unwrap_err(), "CPF do cliente e obrigatorio");
    assert_eq!(submit("Ana", "123", "1").unwrap_err(), "CPF deve ter 11 digitos");
    assert_eq!(submit("Ana", "12345678901", "").unwrap_err(), "Telefone do cliente e obrigatorio");
    assert_eq!(submit("Ana", "12345678901", "123456789012").unwrap_err(), "Telefone deve ter 10 ou 11 digitos");
    let p = submit(" Ana ", "123.456.789-01", "(11) 3333-4444").unwrap();
    assert_eq!((p.nome.as_str(), p.cpf.as_str(), p.telefone.as_str()), ("Ana", "12345678901", "1133334444"));
}
