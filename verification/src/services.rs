pub mod api;
pub mod auth_service;
pub mod caixa_service;
pub mod cliente_service;
pub mod comanda_service;
pub mod funcionario_service;
pub mod produto_service;
