//! The opening handshake, apart from the socket: deriving the accept key
//! from a client key, validating an upgrade request and building the
//! `101` response, checking a server's response on the client side, and
//! setting up the deflate contexts from the agreed extensions.

use vstd::prelude::*;
use vstd::string::{StrSliceExecFns, StringExecFns};
use vstd::utf8::encode_utf8;
use base64::Engine;
use sha1::Digest;
use crate::bytetext::{seq_views, split_bytes, split_on, spec_trim, trim};
use crate::compression::{Decoder, Encoder};
use crate::error::Error;
use crate::extensions::{
    merge_extensions, parse_extensions, spec_merge_extensions, spec_parse_extensions, Extensions,
};
use crate::request::{bytes_eq_nocase, spec_header_lookup, spec_lower_seq, HttpRequest};
use crate::write::WriterKind;

verus! {

/// The fixed GUID RFC 6455 appends to the client key before hashing.
pub open spec fn spec_guid_chars() -> Seq<char> {
    "258EAFA5-E914-47DA-95CA-C5AB0DC85B11"@
}

/// What SHA-1 returns for a byte sequence.  The digest is a pure
/// function of its input; its definition stays with the hash crate.
pub uninterp spec fn sha1_of(bytes: Seq<u8>) -> Seq<u8>;

/// What padded standard base64 returns for a byte sequence: a pure
/// function of its input.
pub uninterp spec fn base64_of(bytes: Seq<u8>) -> Seq<char>;

/// Relies on `sha1::Sha1` through the `Digest` trait: the SHA-1 digest
/// of the input, twenty bytes, depending on the input alone.
#[verifier::external_body]
fn sha1_digest(input: &Vec<u8>) -> (r: Vec<u8>)
    ensures
        r@ == sha1_of(input@),
        r@.len() == 20,
{
    sha1::Sha1::digest(input.as_slice()).to_vec()
}

/// Relies on base64's `STANDARD` engine: the padded base64 text of the
/// input, depending on the input alone; four characters for every three
/// bytes begun.
#[verifier::external_body]
fn base64_encode(input: &Vec<u8>) -> (r: String)
    ensures
        r@ == base64_of(input@),
        r@.len() == 4 * ((input@.len() + 2) / 3),
{
    base64::engine::general_purpose::STANDARD.encode(input.as_slice())
}

/// Relies on `rand::random`: sixteen bytes drawn from the thread-local
/// generator; nothing is promised of their values.
#[verifier::external_body]
fn random_nonce() -> (r: Vec<u8>)
    ensures
        r@.len() == 16,
{
    rand::random::<[u8; 16]>().to_vec()
}

/// The accept key that answers a client key: the base64 text of the
/// SHA-1 digest of the key followed by the GUID.
pub open spec fn spec_accept_key_chars(key: Seq<char>) -> Seq<char> {
    base64_of(sha1_of(encode_utf8(key) + encode_utf8(spec_guid_chars())))
}

/// Derive the `Sec-WebSocket-Accept` value for a client key: exactly
/// `base64(sha1(key ++ GUID))`, byte for byte, and always 28 characters.
pub fn generate_websocket_accept_value(key: String) -> (r: String)
    ensures
        r@ == spec_accept_key_chars(key@),
        r@.len() == 28,
{
    let mut input = key.as_str().as_bytes_vec();
    let mut guid = "258EAFA5-E914-47DA-95CA-C5AB0DC85B11".as_bytes_vec();
    input.append(&mut guid);
    let digest = sha1_digest(&input);
    base64_encode(&digest)
}

/// Draw a fresh 16-byte nonce and hand out its base64 text: 24
/// characters encoding some 16 random bytes.
pub fn generate_websocket_key() -> (r: String)
    ensures
        exists|nonce: Seq<u8>| nonce.len() == 16 && r@ == #[trigger] base64_of(nonce),
        r@.len() == 24,
{
    let nonce = random_nonce();
    base64_encode(&nonce)
}

/// Whether some comma-separated field of `v`, trimmed, equals `tok`
/// under ASCII case folding.
pub open spec fn spec_contains_token(v: Seq<u8>, tok: Seq<u8>) -> bool {
    exists|k: int|
        0 <= k < split_on(v, 44).len() && spec_lower_seq(
            spec_trim(#[trigger] split_on(v, 44)[k]),
        ) == spec_lower_seq(tok)
}

/// Token-wise, case-insensitive membership test on a header value.
fn header_contains_token(value: &String, token: &Vec<u8>) -> (r: bool)
    ensures
        r == spec_contains_token(encode_utf8(value@), token@),
{
    let bytes = value.as_str().as_bytes_vec();
    let fields = split_bytes(&bytes, 44);
    let ghost fs = split_on(bytes@, 44);
    let mut k: usize = 0;
    while k < fields.len()
        invariant
            k <= fields@.len(),
            seq_views(fields@) == fs,
            bytes@ == encode_utf8(value@),
            fs == split_on(bytes@, 44),
            forall|j: int|
                0 <= j < k ==> spec_lower_seq(spec_trim(#[trigger] fs[j])) != spec_lower_seq(
                    token@,
                ),
        decreases fields@.len() - k,
    {
        let field = trim(fields[k].clone());
        if bytes_eq_nocase(&field, token) {
            proof {
                assert(spec_lower_seq(spec_trim(fs[k as int])) == spec_lower_seq(token@));
            }
            return true;
        }
        k = k + 1;
    }
    false
}

/// Whether every named window-bits value in an agreed parameter set lies
/// between 8 and 15.
pub open spec fn spec_window_bits_ok(e: Option<Extensions>) -> bool {
    match e {
        None => true,
        Some(x) => {
            &&& (x.client_max_window_bits matches Some(b) ==> 8 <= b <= 15)
            &&& (x.server_max_window_bits matches Some(b) ==> 8 <= b <= 15)
        },
    }
}

fn window_bits_ok(e: &Option<Extensions>) -> (r: bool)
    ensures
        r == spec_window_bits_ok(*e),
{
    match e {
        None => true,
        Some(x) => {
            let c = match x.client_max_window_bits {
                Some(b) => 8 <= b && b <= 15,
                None => true,
            };
            let s = match x.server_max_window_bits {
                Some(b) => 8 <= b && b <= 15,
                None => true,
            };
            c && s
        },
    }
}

/// The extension offer named in the headers: the parse of the
/// `Sec-WebSocket-Extensions` value, or of nothing when it is absent.
pub open spec fn spec_offered_extensions(hs: Seq<(String, String)>) -> Option<Extensions> {
    match spec_header_lookup(hs, "Sec-WebSocket-Extensions"@) {
        Some(v) => spec_parse_extensions(encode_utf8(v)),
        None => spec_parse_extensions(encode_utf8(Seq::<char>::empty())),
    }
}

/// What validating an upgrade request decides: the first failing check
/// names the error, and a request that passes them all yields the agreed
/// extensions — the server policy merged with the client offer, its
/// window-bits values confirmed to lie in range.
pub open spec fn spec_server_check(
    method: Seq<char>,
    version: Seq<char>,
    hs: Seq<(String, String)>,
    server_extensions: Option<Extensions>,
) -> Result<Option<Extensions>, Error> {
    if method != "GET"@ || version != "HTTP/1.1"@ {
        Err(Error::InvalidHTTPHandshake)
    } else if spec_header_lookup(hs, "Host"@) is None {
        Err(Error::NoHostHeaderPresent)
    } else if !(spec_header_lookup(hs, "Upgrade"@) matches Some(v) && spec_contains_token(
        encode_utf8(v),
        encode_utf8("websocket"@),
    )) {
        Err(Error::NoUpgradeHeaderPresent)
    } else if !(spec_header_lookup(hs, "Connection"@) matches Some(v) && spec_contains_token(
        encode_utf8(v),
        encode_utf8("Upgrade"@),
    )) {
        Err(Error::NoConnectionHeaderPresent)
    } else if !(spec_header_lookup(hs, "Sec-WebSocket-Version"@) matches Some(v) && v == "13"@) {
        Err(Error::InvalidHTTPHandshake)
    } else if spec_header_lookup(hs, "Sec-WebSocket-Key"@) is None {
        Err(Error::NoSecWebsocketKey)
    } else {
        let agreed = spec_merge_extensions(server_extensions, spec_offered_extensions(hs));
        if !spec_window_bits_ok(agreed) {
            Err(Error::InvalidMaxWindowBits)
        } else {
            Ok(agreed)
        }
    }
}

/// The `101 Switching Protocols` response carrying an accept value and
/// the agreed extensions.
pub open spec fn spec_accept_response(accept: Seq<char>, agreed: Option<Extensions>) -> Seq<char> {
    "HTTP/1.1 101 Switching Protocols\r\nConnection: Upgrade\r\nUpgrade: websocket\r\nSec-WebSocket-Accept: "@
        + accept + "\r\n"@ + crate::extensions::spec_extension_header_tail(agreed)
}

/// Validate a client's upgrade request and build the server's answer.
///
/// Every check of `spec_server_check` runs in order; on success the
/// response text carries `base64(sha1(client_key ++ GUID))` as its
/// accept value and echoes the agreed extensions, which are also handed
/// back for configuring the session.
pub fn parse_handshake_server(req: &HttpRequest, server_extensions: Option<Extensions>) -> (r:
    Result<(String, Option<Extensions>), Error>)
    ensures
        r is Err <==> spec_server_check(req.method@, req.version@, req.headers@,
            server_extensions) is Err,
        r is Err ==> r->Err_0 == spec_server_check(req.method@, req.version@, req.headers@,
            server_extensions)->Err_0,
        r is Ok ==> {
            let agreed = spec_server_check(req.method@, req.version@, req.headers@,
                server_extensions)->Ok_0;
            &&& r->Ok_0.1 == agreed
            &&& spec_window_bits_ok(agreed)
            &&& r->Ok_0.0@ == spec_accept_response(
                spec_accept_key_chars(
                    spec_header_lookup(req.headers@, "Sec-WebSocket-Key"@)->0,
                ),
                agreed,
            )
        },
{
    if !(req.method == String::from_str("GET")) || !(req.version == String::from_str(
        "HTTP/1.1",
    )) {
        return Err(Error::InvalidHTTPHandshake);
    }
    if req.get_header_value("Host").is_none() {
        return Err(Error::NoHostHeaderPresent);
    }
    let upgrade_ok = match req.get_header_value("Upgrade") {
        Some(v) => header_contains_token(&v, &"websocket".as_bytes_vec()),
        None => false,
    };
    if !upgrade_ok {
        return Err(Error::NoUpgradeHeaderPresent);
    }
    let connection_ok = match req.get_header_value("Connection") {
        Some(v) => header_contains_token(&v, &"Upgrade".as_bytes_vec()),
        None => false,
    };
    if !connection_ok {
        return Err(Error::NoConnectionHeaderPresent);
    }
    let version_ok = match req.get_header_value("Sec-WebSocket-Version") {
        Some(v) => v == String::from_str("13"),
        None => false,
    };
    if !version_ok {
        return Err(Error::InvalidHTTPHandshake);
    }
    let sec_websocket_key = match req.get_header_value("Sec-WebSocket-Key") {
        Some(key) => key,
        None => {
            return Err(Error::NoSecWebsocketKey);
        },
    };
    let client_extensions = match req.get_header_value("Sec-WebSocket-Extensions") {
        Some(v) => parse_extensions(v),
        None => parse_extensions(String::new()),
    };
    let agreed_extensions = merge_extensions(server_extensions, client_extensions);
    if !window_bits_ok(&agreed_extensions) {
        return Err(Error::InvalidMaxWindowBits);
    }
    let accept_key = generate_websocket_accept_value(sec_websocket_key);
    let mut response = String::from_str(
        "HTTP/1.1 101 Switching Protocols\r\nConnection: Upgrade\r\nUpgrade: websocket\r\nSec-WebSocket-Accept: ",
    );
    response.append(accept_key.as_str());
    response.append("\r\n");
    crate::extensions::add_extension_headers(&mut response, agreed_extensions);
    proof {
        assert(response@ =~= spec_accept_response(accept_key@, agreed_extensions));
    }
    Ok((response, agreed_extensions))
}

/// What checking the server's answer decides: anything but a `101` is no
/// upgrade; the `Sec-WebSocket-Accept` value must equal the accept key
/// derived from our own nonce, byte for byte; extensions the server
/// named must carry window-bits values in range; and what comes back are
/// the session's extensions.
pub open spec fn spec_client_check(
    uri: Seq<char>,
    hs: Seq<(String, String)>,
    key: Seq<char>,
) -> Result<Option<Extensions>, Error> {
    if uri != "101"@ {
        Err(Error::NoUpgrade)
    } else if !(spec_header_lookup(hs, "Sec-WebSocket-Accept"@) matches Some(v) && v
        == spec_accept_key_chars(key)) {
        Err(Error::InvalidAcceptKey)
    } else {
        let ext = spec_offered_extensions(hs);
        if !spec_window_bits_ok(ext) {
            Err(Error::InvalidMaxWindowBits)
        } else {
            Ok(ext)
        }
    }
}

/// Check the server's answer on the client side, exactly as
/// `spec_client_check` describes it: the response must be a `101`, its
/// `Sec-WebSocket-Accept` value must equal the accept key derived from
/// our own nonce, and whatever extensions the server named must carry
/// window-bits values in range.
pub fn parse_handshake_client(req: &HttpRequest, client_websocket_key: String) -> (r: Result<
    Option<Extensions>,
    Error,
>)
    ensures
        r == spec_client_check(req.uri@, req.headers@, client_websocket_key@),
{
    if !(req.uri == String::from_str("101")) {
        return Err(Error::NoUpgrade);
    }
    let expected_accept_value = generate_websocket_accept_value(client_websocket_key);
    let sec_websocket_accept = match req.get_header_value("Sec-WebSocket-Accept") {
        Some(value) => value,
        None => {
            return Err(Error::InvalidAcceptKey);
        },
    };
    if !(sec_websocket_accept == expected_accept_value) {
        return Err(Error::InvalidAcceptKey);
    }
    let extensions = match req.get_header_value("Sec-WebSocket-Extensions") {
        Some(v) => parse_extensions(v),
        None => parse_extensions(String::new()),
    };
    if !window_bits_ok(&extensions) {
        return Err(Error::InvalidMaxWindowBits);
    }
    Ok(extensions)
}

/// Whether the context this side reads with is dropped after every
/// message: the peer's `no_context_takeover` flag.
pub open spec fn spec_inbound_reset(extensions: Option<Extensions>, kind: WriterKind) -> bool {
    match extensions {
        None => false,
        Some(e) => match kind {
            WriterKind::Server => e.client_no_context_takeover == Some(true),
            WriterKind::Client => e.server_no_context_takeover == Some(true),
        },
    }
}

/// Whether the context this side writes with is dropped after every
/// message: our own `no_context_takeover` flag.
pub open spec fn spec_outbound_reset(extensions: Option<Extensions>, kind: WriterKind) -> bool {
    match extensions {
        None => false,
        Some(e) => match kind {
            WriterKind::Server => e.server_no_context_takeover == Some(true),
            WriterKind::Client => e.client_no_context_takeover == Some(true),
        },
    }
}

/// The deflate context for what this side reads: governed by the peer's
/// parameters — the client's when we are the server, the server's when
/// we are the client.
pub fn create_decoder(extensions: &Option<Extensions>, kind: &WriterKind) -> (r: Decoder)
    requires
        spec_window_bits_ok(*extensions),
    ensures
        r.reset_context == spec_inbound_reset(*extensions, *kind),
{
    match extensions {
        Some(e) => match kind {
            WriterKind::Server => Decoder::new(
                match e.client_no_context_takeover {
                    Some(b) => b,
                    None => false,
                },
                e.client_max_window_bits,
            ),
            WriterKind::Client => Decoder::new(
                match e.server_no_context_takeover {
                    Some(b) => b,
                    None => false,
                },
                e.server_max_window_bits,
            ),
        },
        None => Decoder::new(false, None),
    }
}

/// The deflate context for what this side writes: governed by our own
/// parameters — the server's when we are the server, the client's when
/// we are the client.
pub fn create_encoder(extensions: &Option<Extensions>, kind: &WriterKind) -> (r: Encoder)
    requires
        spec_window_bits_ok(*extensions),
    ensures
        r.reset_context == spec_outbound_reset(*extensions, *kind),
{
    match extensions {
        Some(e) => match kind {
            WriterKind::Server => Encoder::new(
                match e.server_no_context_takeover {
                    Some(b) => b,
                    None => false,
                },
                e.server_max_window_bits,
            ),
            WriterKind::Client => Encoder::new(
                match e.client_no_context_takeover {
                    Some(b) => b,
                    None => false,
                },
                e.client_max_window_bits,
            ),
        },
        None => Encoder::new(false, None),
    }
}

} // verus!
