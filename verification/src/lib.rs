pub mod channel;
pub mod json;
pub mod jsonrpc;
pub mod message;
pub mod objectid;
pub mod peer;
pub mod server;
pub mod strmap;
pub mod text;
