//! A synchronous, framed RPC transport for trusted local sockets: the wire
//! codec, the request router and the decisions of the per-connection worker
//! pool and of the listener, each with a machine-checked contract.

pub mod address;
pub mod channel;
pub mod codegen;
pub mod error;
pub mod handler;
pub mod proto;
pub mod router;
pub mod server;
pub mod wire;
pub mod worker;
