pub mod api_config;
pub mod config;
pub mod snackbar;
pub mod user_groups;
