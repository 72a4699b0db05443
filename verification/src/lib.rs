//! Bindings that carry agent-to-agent calls over standard streams and WebSocket
//! connections.
pub mod buffer;
pub mod client;
pub mod client_socket;
pub mod dispatch;
pub mod envelope;
pub mod envelope_laws;
pub mod error_code;
pub mod ids;
pub mod json_value;
pub mod methods;
pub mod params;
pub mod plugin;
pub mod protocol;
pub mod protocol_laws;
pub mod protojson;
pub mod record;
pub mod server_socket;
pub mod socket_exchange;
pub mod socket_laws;
pub mod span;
pub mod stdio;
pub mod text;
pub mod text_laws;
pub mod text_map;
pub mod view_laws;
pub mod websocket;
