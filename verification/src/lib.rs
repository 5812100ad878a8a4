//! A WebSocket protocol engine: the RFC 6455 frame codec, message
//! reassembly, the HTTP upgrade handshake with extension negotiation, and
//! the RFC 7692 per-message deflate pipeline, with verified contracts.
//! The engine never touches a socket: a surrounding runtime feeds it bytes
//! and writes out the bytes it produces.

pub mod error;
pub mod frame;
pub mod message;
pub mod bytetext;
pub mod decimal;
pub mod config;
pub mod extensions;
pub mod write;
pub mod read;
pub mod compression;
pub mod split;
pub mod request;
pub mod handshake;
