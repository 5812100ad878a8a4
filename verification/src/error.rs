//! The error kinds that the engine reports: handshake, framing,
//! fragmentation, HTTP and compression failures, each with the
//! condition that produces it stated on the function that returns it.

use vstd::prelude::*;

verus! {

/// One tagged error kind for the whole engine.  Transport failures stay with
/// the surrounding runtime; everything the protocol logic itself decides is
/// listed here.
#[derive(Debug, Clone, Copy, PartialEq, Eq, Structural)]
pub enum Error {
    /// Channel or task plumbing failed around the engine.
    CommunicationError,
    /// A delivered Text message, or data handed to `send`, was not UTF-8.
    InvalidUtf8,
    // Handshake errors
    /// The request line did not carry the required method and version.
    InvalidHTTPHandshake,
    /// `Connection: Upgrade` was missing from the request.
    NoConnectionHeaderPresent,
    /// `Upgrade: websocket` was missing from the request.
    NoUpgradeHeaderPresent,
    /// `Host` was missing from the request.
    NoHostHeaderPresent,
    /// `Sec-WebSocket-Key` was missing from the request.
    NoSecWebsocketKey,
    /// The server did not upgrade the connection.
    NoUpgrade,
    /// The server's `Sec-WebSocket-Accept` value did not match the key.
    InvalidAcceptKey,
    // Framing errors
    /// A reserved bit was set that no negotiated extension explains.
    RSVNotZero,
    /// A control frame arrived or was requested with the final bit clear.
    ControlFramesFragmented,
    /// A control frame carried a payload longer than 125 bytes.
    ControlFramePayloadSize,
    /// The caller asked for fragments larger than the frame size cap;
    /// carries the requested size and the cap.
    CustomFragmentSizeExceeded(usize, usize),
    /// A frame exceeded the configured maximum frame size.
    MaxFrameSize,
    /// A message exceeded the configured maximum message size.
    MaxMessageSize,
    /// A frame was masked, or unmasked, in the wrong direction for the role.
    MaskingViolation,
    // Fragmentation errors
    /// A new data message started while a fragmented one was in progress.
    InvalidFrameFragmentation,
    /// A fragmented message started while another was in progress.
    FragmentedInProgress,
    /// A continuation frame arrived with no fragmented message to continue.
    InvalidContinuationFrame,
    /// An opcode outside the six assigned values.
    InvalidOpcode,
    // HTTP and URL errors
    /// The URL could not be parsed at all.
    URLParseError,
    /// The URL scheme was neither `ws` nor `wss`.
    InvalidSchemeURL,
    /// The URL carried no host.
    URLNoHost,
    /// The URL carried no usable port.
    URLNoPort,
    /// The HTTP request could not be parsed.
    HttpParseError,
    /// The HTTP request ended before the blank line.
    IncompleteHTTPRequest,
    // Transport
    /// The underlying duplex failed; the runtime maps its error here.
    IOError,
    // Compression errors
    /// A window-bits value outside 8 through 15 was requested.
    InvalidMaxWindowBits,
    /// The deflate stream could not be compressed or decompressed.
    CompressionError,
}

} // verus!
