pub mod client;
pub mod codec;
pub mod codec_laws;
pub mod exchange;
pub mod frame;
pub mod framing_laws;
pub mod json;
pub mod json_laws;
pub mod message_laws;
pub mod metadata;
pub mod server;
pub mod session;
pub mod session_laws;
pub mod view_laws;
pub mod wire;
