//! Base64 coding, command-line settings and request text for a small HTTP GET client.
pub mod base64;
pub mod text;
pub mod tcpip;
pub mod help;
pub mod request;
