pub mod cliente_filters;
pub mod comanda_filters;
pub mod filter_fields;
pub mod list_flow;
pub mod funcionario_filters;
pub mod navbar;
pub mod pagination;
pub mod snackbar;
pub mod user_profile;
