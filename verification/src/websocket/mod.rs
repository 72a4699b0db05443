pub mod auth;
pub mod client;
pub mod client_laws;
pub mod common;
pub mod endpoint;
pub mod error_types;
pub mod errors;
pub mod exchange;
pub mod handshake;
pub mod limits;
pub mod liveness;
pub mod ratelimit;
pub mod reconnect;
pub mod server;
pub mod server_laws;
pub mod tls;
pub mod view_laws;
