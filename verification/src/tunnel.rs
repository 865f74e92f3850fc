//! The reverse tunnel: the binary envelope, control frames, flow control, and
//! the state that ties HTTP exchanges and WebSocket channels to a connection.
pub mod envelope;
pub mod frame;
pub mod config;
pub mod registry;
pub mod credits;
pub mod state;
pub mod connection;
pub mod dispatch;
pub mod headers;
pub mod exchange;
pub mod upload;
pub mod upload_laws;
pub mod channel;
pub mod serve;
pub mod laws;
