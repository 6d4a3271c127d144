//! A tunnelling relay: a fixed-layout handshake carried over a message
//! transport, and the rules that forward the connection it asks for.
//!
//! Nothing here performs input or output. Every waiting point of a tunnel is
//! a value: the library says what is to be done next, the caller does it and
//! reports what came of it.

pub mod address;
pub mod buffer;
pub mod codec;
pub mod error;
pub mod ext;
pub mod gateway;
pub mod handshake;
pub mod protocol;
pub mod proxy;
pub mod text;
pub mod trace;
pub mod websocket;
