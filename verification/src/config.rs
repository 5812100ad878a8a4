//! Session configuration: the size caps and the extension offer that a
//! server or client brings to a connection.

use vstd::prelude::*;
use crate::extensions::Extensions;

verus! {

/// Default cap on one frame payload: 16 MiB.
pub const DEFAULT_MAX_FRAME_SIZE: usize = 16777216;

/// Default cap on one reassembled message: 64 MiB.
pub const DEFAULT_MAX_MESSAGE_SIZE: usize = 67108864;

/// General connection parameters; `None` falls back to the defaults above.
#[derive(Debug, Clone)]
pub struct WebSocketConfig {
    /// Hard cap on one inbound frame payload, in bytes.
    pub max_frame_size: Option<usize>,
    /// Hard cap on one reassembled message, in bytes.
    pub max_message_size: Option<usize>,
    /// The extension offer, or the agreed extensions once negotiated.
    pub extensions: Option<Extensions>,
}

impl WebSocketConfig {
    /// The frame-size cap in force: the configured one, or the default.
    pub fn frame_size_limit(&self) -> (r: usize)
        ensures
            r == spec_frame_size_limit(*self),
    {
        match self.max_frame_size {
            Some(n) => n,
            None => DEFAULT_MAX_FRAME_SIZE,
        }
    }

    /// The message-size cap in force: the configured one, or the default.
    pub fn message_size_limit(&self) -> (r: usize)
        ensures
            r == spec_message_size_limit(*self),
    {
        match self.max_message_size {
            Some(n) => n,
            None => DEFAULT_MAX_MESSAGE_SIZE,
        }
    }

    /// Whether per-message deflate is on for this session.
    pub fn deflate_enabled(&self) -> (r: bool)
        ensures
            r == spec_deflate_enabled(*self),
    {
        match &self.extensions {
            Some(e) => e.permessage_deflate,
            None => false,
        }
    }
}

/// The frame-size cap in force under a configuration.
pub open spec fn spec_frame_size_limit(c: WebSocketConfig) -> usize {
    match c.max_frame_size {
        Some(n) => n,
        None => DEFAULT_MAX_FRAME_SIZE,
    }
}

/// The message-size cap in force under a configuration.
pub open spec fn spec_message_size_limit(c: WebSocketConfig) -> usize {
    match c.max_message_size {
        Some(n) => n,
        None => DEFAULT_MAX_MESSAGE_SIZE,
    }
}

/// Whether per-message deflate is on under a configuration.
pub open spec fn spec_deflate_enabled(c: WebSocketConfig) -> bool {
    match c.extensions {
        Some(e) => e.permessage_deflate,
        None => false,
    }
}

impl Default for WebSocketConfig {
    /// The defaults: 16 MiB frames, 64 MiB messages, no extensions.
    fn default() -> (r: Self)
        ensures
            r.max_frame_size == Some(DEFAULT_MAX_FRAME_SIZE),
            r.max_message_size == Some(DEFAULT_MAX_MESSAGE_SIZE),
            r.extensions is None,
    {
        WebSocketConfig {
            max_message_size: Some(DEFAULT_MAX_MESSAGE_SIZE),
            max_frame_size: Some(DEFAULT_MAX_FRAME_SIZE),
            extensions: None,
        }
    }
}

/// Configuration for connecting as a client.  TLS material (an extra trust
/// anchor for self-signed peers) is named by path; the surrounding runtime
/// loads and uses it.
#[derive(Debug, Clone)]
pub struct ClientConfig {
    pub web_socket_config: WebSocketConfig,
    /// Path of a CA file for peers with self-signed certificates.
    pub ca_file: Option<String>,
}

impl Default for ClientConfig {
    /// Default connection parameters and no extra trust anchor.
    fn default() -> (r: Self)
        ensures
            r.web_socket_config.max_frame_size == Some(DEFAULT_MAX_FRAME_SIZE),
            r.web_socket_config.max_message_size == Some(DEFAULT_MAX_MESSAGE_SIZE),
            r.web_socket_config.extensions is None,
            r.ca_file is None,
    {
        ClientConfig { web_socket_config: Default::default(), ca_file: None }
    }
}

/// Configuration for accepting connections as a server.  TLS acceptor
/// state lives with the surrounding runtime, which wraps the byte stream
/// before it is handed to the engine.
#[derive(Debug, Clone)]
pub struct ServerConfig {
    pub web_socket_config: Option<WebSocketConfig>,
}

impl Default for ServerConfig {
    /// No per-connection overrides.
    fn default() -> (r: Self)
        ensures
            r.web_socket_config is None,
    {
        ServerConfig { web_socket_config: None }
    }
}

} // verus!
