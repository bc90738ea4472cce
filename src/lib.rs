pub mod headers;
pub mod methods;
pub mod request;
pub mod response;
pub mod routes;
pub mod server;
pub mod status;
pub mod store;
pub mod text;
