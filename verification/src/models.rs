pub mod polling;
pub mod route;
pub mod routes;
pub mod rules;
