//! A small HTTP/1.1 origin server library: request parsing, response
//! serialization, a per-connection state machine and a rule language that
//! rewrites responses.
mod bytes;
pub mod text;
pub mod token;
pub mod request_method;
pub mod header;
pub mod http_version;
pub mod request;
pub mod response;
pub mod response_status_code;
pub mod connection;
pub mod laws;
pub mod rules;
pub mod server;
pub mod server_config;
