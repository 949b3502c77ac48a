pub mod text;
pub mod number;
pub mod hooks;
pub mod shared;
pub mod uri;
pub mod json;
pub mod split;
pub mod constants;
pub mod utils;
pub mod components;
pub mod services;
pub mod routes;
pub mod pages;
