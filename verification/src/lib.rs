//! Publishing an FLV file to an RTMP server.
pub mod amf;
pub mod be;
pub mod chunks;
pub mod endpoint;
pub mod error;
pub mod flv;
pub mod flv_reader;
pub mod handshake;
pub mod inbound;
pub mod intake;
pub mod pacing;
pub mod publisher;
pub mod session;
pub mod stream;
pub mod text;
pub mod transcript;
