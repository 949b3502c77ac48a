pub mod masks;
