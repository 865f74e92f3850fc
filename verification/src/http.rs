//! The HTTP server of the sandbox: reading requests, routing them, and what
//! they are answered.
pub mod request;
pub mod body;
pub mod server;
