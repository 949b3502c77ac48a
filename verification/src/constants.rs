pub mod comanda_status;
