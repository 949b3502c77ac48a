pub mod caixa_dashboard;
pub mod cliente_form;
pub mod comanda_consumo_form;
pub mod comanda_form;
pub mod comanda_list;
pub mod display;
pub mod funcionario_form;
pub mod funcionario_list;
pub mod produto_form;
pub mod recebimento_form;
pub mod recebimento_list;
