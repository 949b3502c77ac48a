pub mod private_route;
