//! The `permessage-deflate` extension: parsing an offer from a
//! `Sec-WebSocket-Extensions` header, merging a server policy with a
//! client offer, and writing the agreed parameters back into a header.

use vstd::prelude::*;
use vstd::string::{StrSliceExecFns, StringExecFns};
use vstd::utf8::encode_utf8;
use crate::bytetext::{
    after_last, after_last_byte, bytes_eq, contains_byte, seq_views, spec_parse_u8,
    spec_starts_with, spec_trim, split_bytes, split_on, starts_with, parse_u8_bytes, trim,
};
use crate::decimal::{push_decimal, spec_dec_chars};
use crate::error::Error;

verus! {

/// The extension parameters a side offers or both sides agree on.
/// `None` means the parameter was not mentioned; window-bits values are
/// meaningful between 8 and 15.
#[derive(Debug, Clone, Copy, PartialEq)]
pub struct Extensions {
    /// Whether compression is requested or agreed at all.
    pub permessage_deflate: bool,
    /// The client resets its compressor after each message, and the server
    /// its decompressor.
    pub client_no_context_takeover: Option<bool>,
    /// The server resets its compressor after each message, and the client
    /// its decompressor.
    pub server_no_context_takeover: Option<bool>,
    /// Window size of the client's compressor, as a base-2 logarithm.
    pub client_max_window_bits: Option<u8>,
    /// Window size of the server's compressor, as a base-2 logarithm.
    pub server_max_window_bits: Option<u8>,
}

/// The empty offer: nothing requested, nothing mentioned.
pub open spec fn spec_default_extensions() -> Extensions {
    Extensions {
        permessage_deflate: false,
        client_no_context_takeover: None,
        server_no_context_takeover: None,
        client_max_window_bits: None,
        server_max_window_bits: None,
    }
}

impl Default for Extensions {
    /// The empty offer: nothing requested, nothing mentioned.
    fn default() -> (r: Self)
        ensures
            r == spec_default_extensions(),
    {
        Extensions {
            permessage_deflate: false,
            client_no_context_takeover: None,
            server_no_context_takeover: None,
            client_max_window_bits: None,
            server_max_window_bits: None,
        }
    }
}

/// A window-bits value as RFC 7692 allows it: 8 through 15.
#[derive(Debug, Clone, PartialEq, Eq, Structural)]
pub enum MaxWindowBits {
    Eight,
    Nine,
    Ten,
    Eleven,
    Twelve,
    Thirteen,
    Fourteen,
    Fifteen,
}

/// The number a window-bits tag stands for.
pub open spec fn spec_window_bits_value(w: MaxWindowBits) -> u8 {
    match w {
        MaxWindowBits::Eight => 8,
        MaxWindowBits::Nine => 9,
        MaxWindowBits::Ten => 10,
        MaxWindowBits::Eleven => 11,
        MaxWindowBits::Twelve => 12,
        MaxWindowBits::Thirteen => 13,
        MaxWindowBits::Fourteen => 14,
        MaxWindowBits::Fifteen => 15,
    }
}

impl MaxWindowBits {
    /// Accept a number between 8 and 15, and reject everything else with
    /// `InvalidMaxWindowBits`.
    pub fn from_u8(value: u8) -> (r: Result<Self, Error>)
        ensures
            r is Ok <==> 8 <= value <= 15,
            r is Ok ==> spec_window_bits_value(r->Ok_0) == value,
            r is Err ==> r->Err_0 == Error::InvalidMaxWindowBits,
    {
        match value {
            8 => Ok(MaxWindowBits::Eight),
            9 => Ok(MaxWindowBits::Nine),
            10 => Ok(MaxWindowBits::Ten),
            11 => Ok(MaxWindowBits::Eleven),
            12 => Ok(MaxWindowBits::Twelve),
            13 => Ok(MaxWindowBits::Thirteen),
            14 => Ok(MaxWindowBits::Fourteen),
            15 => Ok(MaxWindowBits::Fifteen),
            _ => Err(Error::InvalidMaxWindowBits),
        }
    }

    /// The number this tag stands for.
    pub fn to_u8(&self) -> (r: u8)
        ensures
            r == spec_window_bits_value(*self),
    {
        match self {
            MaxWindowBits::Eight => 8,
            MaxWindowBits::Nine => 9,
            MaxWindowBits::Ten => 10,
            MaxWindowBits::Eleven => 11,
            MaxWindowBits::Twelve => 12,
            MaxWindowBits::Thirteen => 13,
            MaxWindowBits::Fourteen => 14,
            MaxWindowBits::Fifteen => 15,
        }
    }
}

/// The bytes of `permessage-deflate`.
pub open spec fn tok_permessage_deflate() -> Seq<u8> {
    seq![
        112, 101, 114, 109, 101, 115, 115, 97, 103, 101, 45, 100, 101, 102, 108,
        97, 116, 101,
    ]
}

/// The bytes of `client_no_context_takeover`.
pub open spec fn tok_client_no_context_takeover() -> Seq<u8> {
    seq![
        99, 108, 105, 101, 110, 116, 95, 110, 111, 95, 99, 111, 110, 116, 101,
        120, 116, 95, 116, 97, 107, 101, 111, 118, 101, 114,
    ]
}

/// The bytes of `server_no_context_takeover`.
pub open spec fn tok_server_no_context_takeover() -> Seq<u8> {
    seq![
        115, 101, 114, 118, 101, 114, 95, 110, 111, 95, 99, 111, 110, 116, 101,
        120, 116, 95, 116, 97, 107, 101, 111, 118, 101, 114,
    ]
}

/// The bytes of `client_max_window_bits`.
pub open spec fn tok_client_max_window_bits() -> Seq<u8> {
    seq![
        99, 108, 105, 101, 110, 116, 95, 109, 97, 120, 95, 119, 105, 110, 100,
        111, 119, 95, 98, 105, 116, 115,
    ]
}

/// The bytes of `server_max_window_bits`.
pub open spec fn tok_server_max_window_bits() -> Seq<u8> {
    seq![
        115, 101, 114, 118, 101, 114, 95, 109, 97, 120, 95, 119, 105, 110, 100,
        111, 119, 95, 98, 105, 116, 115,
    ]
}

fn tok_permessage_deflate_vec() -> (r: Vec<u8>)
    ensures
        r@ == tok_permessage_deflate(),
{
    let r = vec![
        112, 101, 114, 109, 101, 115, 115, 97, 103, 101, 45, 100, 101, 102, 108,
        97, 116, 101,
    ];
    assert(r@ =~= tok_permessage_deflate());
    r
}

fn tok_client_no_context_takeover_vec() -> (r: Vec<u8>)
    ensures
        r@ == tok_client_no_context_takeover(),
{
    let r = vec![
        99, 108, 105, 101, 110, 116, 95, 110, 111, 95, 99, 111, 110, 116, 101,
        120, 116, 95, 116, 97, 107, 101, 111, 118, 101, 114,
    ];
    assert(r@ =~= tok_client_no_context_takeover());
    r
}

fn tok_server_no_context_takeover_vec() -> (r: Vec<u8>)
    ensures
        r@ == tok_server_no_context_takeover(),
{
    let r = vec![
        115, 101, 114, 118, 101, 114, 95, 110, 111, 95, 99, 111, 110, 116, 101,
        120, 116, 95, 116, 97, 107, 101, 111, 118, 101, 114,
    ];
    assert(r@ =~= tok_server_no_context_takeover());
    r
}

fn tok_client_max_window_bits_vec() -> (r: Vec<u8>)
    ensures
        r@ == tok_client_max_window_bits(),
{
    let r = vec![
        99, 108, 105, 101, 110, 116, 95, 109, 97, 120, 95, 119, 105, 110, 100,
        111, 119, 95, 98, 105, 116, 115,
    ];
    assert(r@ =~= tok_client_max_window_bits());
    r
}

fn tok_server_max_window_bits_vec() -> (r: Vec<u8>)
    ensures
        r@ == tok_server_max_window_bits(),
{
    let r = vec![
        115, 101, 114, 118, 101, 114, 95, 109, 97, 120, 95, 119, 105, 110, 100,
        111, 119, 95, 98, 105, 116, 115,
    ];
    assert(r@ =~= tok_server_max_window_bits());
    r
}

/// What one `;`-separated field of the header contributes to the offer:
/// the recognised tokens set their flag or value, everything else is
/// ignored.  A window-bits token without `=` counts as 15; with `=`, the
/// digits after the last `=` are parsed as `str::parse::<u8>` would.
pub open spec fn spec_apply_field(e: Extensions, f: Seq<u8>) -> Extensions {
    let t = spec_trim(f);
    if t == tok_permessage_deflate() {
        Extensions { permessage_deflate: true, ..e }
    } else if spec_starts_with(t, tok_client_no_context_takeover()) {
        Extensions { client_no_context_takeover: Some(true), ..e }
    } else if spec_starts_with(t, tok_server_no_context_takeover()) {
        Extensions { server_no_context_takeover: Some(true), ..e }
    } else if spec_starts_with(t, tok_client_max_window_bits()) {
        if !f.contains(61) {
            Extensions { client_max_window_bits: Some(15), ..e }
        } else {
            Extensions { client_max_window_bits: spec_parse_u8(after_last(t, 61)), ..e }
        }
    } else if spec_starts_with(t, tok_server_max_window_bits()) {
        if !f.contains(61) {
            Extensions { server_max_window_bits: Some(15), ..e }
        } else {
            Extensions { server_max_window_bits: spec_parse_u8(after_last(t, 61)), ..e }
        }
    } else {
        e
    }
}

/// The offer after every field has been applied in order.
pub open spec fn spec_fold_fields(e: Extensions, fs: Seq<Seq<u8>>) -> Extensions
    decreases fs.len(),
{
    if fs.len() == 0 {
        e
    } else {
        spec_fold_fields(spec_apply_field(e, fs[0]), fs.drop_first())
    }
}

/// What parsing a whole header value yields: the fields split on `;` are
/// folded over the empty offer; the result stands only if
/// `permessage-deflate` itself was among the fields.
pub open spec fn spec_parse_extensions(bytes: Seq<u8>) -> Option<Extensions> {
    let e = spec_fold_fields(spec_default_extensions(), split_on(bytes, 59));
    if e.permessage_deflate {
        Some(e)
    } else {
        None
    }
}

fn apply_field(e: Extensions, f: Vec<u8>) -> (r: Extensions)
    ensures
        r == spec_apply_field(e, f@),
{
    let has_eq = contains_byte(&f, 61);
    let t = trim(f);
    if bytes_eq(&t, &tok_permessage_deflate_vec()) {
        Extensions { permessage_deflate: true, ..e }
    } else if starts_with(&t, &tok_client_no_context_takeover_vec()) {
        Extensions { client_no_context_takeover: Some(true), ..e }
    } else if starts_with(&t, &tok_server_no_context_takeover_vec()) {
        Extensions { server_no_context_takeover: Some(true), ..e }
    } else if starts_with(&t, &tok_client_max_window_bits_vec()) {
        if !has_eq {
            Extensions { client_max_window_bits: Some(15), ..e }
        } else {
            Extensions { client_max_window_bits: parse_u8_bytes(&after_last_byte(&t, 61)), ..e }
        }
    } else if starts_with(&t, &tok_server_max_window_bits_vec()) {
        if !has_eq {
            Extensions { server_max_window_bits: Some(15), ..e }
        } else {
            Extensions { server_max_window_bits: parse_u8_bytes(&after_last_byte(&t, 61)), ..e }
        }
    } else {
        e
    }
}

/// Parse a `Sec-WebSocket-Extensions` header value into an offer, or
/// `None` when `permessage-deflate` is not named in it.
pub fn parse_extensions(extensions_header_value: String) -> (r: Option<Extensions>)
    ensures
        r == spec_parse_extensions(encode_utf8(extensions_header_value@)),
{
    let bytes = extensions_header_value.as_str().as_bytes_vec();
    let ghost fs = split_on(bytes@, 59);
    let fields = split_bytes(&bytes, 59);
    let mut e = Extensions::default();
    let mut k: usize = 0;
    proof {
        assert(fs.subrange(0, fs.len() as int) =~~= fs);
    }
    while k < fields.len()
        invariant
            k <= fields@.len(),
            seq_views(fields@) == fs,
            spec_fold_fields(e, fs.subrange(k as int, fs.len() as int)) == spec_fold_fields(
                spec_default_extensions(),
                fs,
            ),
        decreases fields@.len() - k,
    {
        let ghost rest = fs.subrange(k as int, fs.len() as int);
        proof {
            assert(rest.drop_first() =~~= fs.subrange(k + 1, fs.len() as int));
            assert(rest[0] == fields@[k as int]@);
        }
        let field = fields[k].clone();
        assert(field@ =~= fields@[k as int]@);
        e = apply_field(e, field);
        k = k + 1;
    }
    proof {
        assert(fs.subrange(fields@.len() as int, fs.len() as int) =~~= Seq::<Seq<u8>>::empty());
    }
    if e.permessage_deflate {
        Some(e)
    } else {
        None
    }
}

/// How a server policy and a client offer come together:
/// `permessage-deflate` holds only if both ask for it; each
/// `no_context_takeover` flag passes the client's value only where the
/// server mentioned the flag too; window bits take the minimum where both
/// sides name one, the named value where one does, and stay absent where
/// neither does.
pub open spec fn spec_merge_extensions(
    server_extensions: Option<Extensions>,
    client_extensions: Option<Extensions>,
) -> Option<Extensions> {
    match (server_extensions, client_extensions) {
        (Some(s), Some(c)) => Some(
            Extensions {
                permessage_deflate: c.permessage_deflate && s.permessage_deflate,
                client_no_context_takeover: spec_opt_and(
                    s.client_no_context_takeover,
                    c.client_no_context_takeover,
                ),
                server_no_context_takeover: spec_opt_and(
                    s.server_no_context_takeover,
                    c.server_no_context_takeover,
                ),
                client_max_window_bits: spec_opt_min(
                    s.client_max_window_bits,
                    c.client_max_window_bits,
                ),
                server_max_window_bits: spec_opt_min(
                    s.server_max_window_bits,
                    c.server_max_window_bits,
                ),
            },
        ),
        _ => None,
    }
}

/// `Option::and`: the second value where the first is present.
pub open spec fn spec_opt_and(a: Option<bool>, b: Option<bool>) -> Option<bool> {
    match a {
        Some(_) => b,
        None => None,
    }
}

/// The minimum where both are present, the named value where one is.
pub open spec fn spec_opt_min(a: Option<u8>, b: Option<u8>) -> Option<u8> {
    match (a, b) {
        (Some(x), Some(y)) => Some(if x <= y { x } else { y }),
        (Some(x), None) => Some(x),
        (None, Some(y)) => Some(y),
        (None, None) => None,
    }
}

/// Merge a server's extension policy with a client's offer.
pub fn merge_extensions(
    server_extensions: Option<Extensions>,
    client_extensions: Option<Extensions>,
) -> (r: Option<Extensions>)
    ensures
        r == spec_merge_extensions(server_extensions, client_extensions),
{
    let server_ext = match server_extensions {
        Some(ext) => ext,
        None => {
            return None;
        },
    };
    let client_ext = match client_extensions {
        Some(ext) => ext,
        None => {
            return None;
        },
    };
    let merged_extensions = Extensions {
        permessage_deflate: client_ext.permessage_deflate && server_ext.permessage_deflate,
        client_no_context_takeover: opt_and(
            server_ext.client_no_context_takeover,
            client_ext.client_no_context_takeover,
        ),
        server_no_context_takeover: opt_and(
            server_ext.server_no_context_takeover,
            client_ext.server_no_context_takeover,
        ),
        client_max_window_bits: opt_min(
            server_ext.client_max_window_bits,
            client_ext.client_max_window_bits,
        ),
        server_max_window_bits: opt_min(
            server_ext.server_max_window_bits,
            client_ext.server_max_window_bits,
        ),
    };
    Some(merged_extensions)
}

fn opt_and(a: Option<bool>, b: Option<bool>) -> (r: Option<bool>)
    ensures
        r == spec_opt_and(a, b),
{
    match a {
        Some(_) => b,
        None => None,
    }
}

fn opt_min(a: Option<u8>, b: Option<u8>) -> (r: Option<u8>)
    ensures
        r == spec_opt_min(a, b),
{
    match (a, b) {
        (Some(x), Some(y)) => Some(if x <= y { x } else { y }),
        (Some(x), None) => Some(x),
        (None, Some(y)) => Some(y),
        (None, None) => None,
    }
}

/// The merge is commutative on the window-bits parameters: whichever side
/// is called the server, both merges settle each window size on the
/// minimum of the two named values, on the single named value, or on
/// nothing where neither side named one.
pub proof fn lemma_merge_window_bits_commutative(a: Extensions, b: Extensions)
    ensures
        spec_merge_extensions(Some(a), Some(b))->0.client_max_window_bits
            == spec_merge_extensions(Some(b), Some(a))->0.client_max_window_bits,
        spec_merge_extensions(Some(a), Some(b))->0.server_max_window_bits
            == spec_merge_extensions(Some(b), Some(a))->0.server_max_window_bits,
        a.client_max_window_bits is Some && b.client_max_window_bits is Some
            ==> spec_merge_extensions(Some(a), Some(b))->0.client_max_window_bits == Some(
            if a.client_max_window_bits->0 <= b.client_max_window_bits->0 {
                a.client_max_window_bits->0
            } else {
                b.client_max_window_bits->0
            },
        ),
        a.server_max_window_bits is Some && b.server_max_window_bits is Some
            ==> spec_merge_extensions(Some(a), Some(b))->0.server_max_window_bits == Some(
            if a.server_max_window_bits->0 <= b.server_max_window_bits->0 {
                a.server_max_window_bits->0
            } else {
                b.server_max_window_bits->0
            },
        ),
{
}

/// The header tail `add_extension_headers` appends: nothing but the blank
/// line when there is no agreement, and otherwise the
/// `Sec-WebSocket-Extensions` line naming every agreed parameter,
/// followed by the blank line that ends the header block.
pub open spec fn spec_extension_header_tail(extensions: Option<Extensions>) -> Seq<char> {
    match extensions {
        None => "\r\n"@,
        Some(e) => (if e.permessage_deflate {
            spec_extension_header_line(e)
        } else {
            Seq::<char>::empty()
        }) + "\r\n\r\n"@,
    }
}

/// The `Sec-WebSocket-Extensions` line for an agreed parameter set.
pub open spec fn spec_extension_header_line(e: Extensions) -> Seq<char> {
    "Sec-WebSocket-Extensions: permessage-deflate"@ + (if e.client_no_context_takeover == Some(true) {
        "; client_no_context_takeover"@
    } else {
        Seq::<char>::empty()
    }) + (if e.server_no_context_takeover == Some(true) {
        "; server_no_context_takeover"@
    } else {
        Seq::<char>::empty()
    }) + (match e.client_max_window_bits {
        Some(bits) => "; client_max_window_bits="@ + spec_dec_chars(bits as nat),
        None => Seq::<char>::empty(),
    }) + (match e.server_max_window_bits {
        Some(bits) => "; server_max_window_bits="@ + spec_dec_chars(bits as nat),
        None => Seq::<char>::empty(),
    })
}

/// Append the `Sec-WebSocket-Extensions` header (when compression was
/// agreed) and the blank line that closes the header block.
#[verifier::rlimit(50)]
pub fn add_extension_headers(request: &mut String, extensions: Option<Extensions>)
    ensures
        final(request)@ == old(request)@ + spec_extension_header_tail(extensions),
{
    match extensions {
        None => {
            request.append("\r\n");
        },
        Some(extensions) => {
            if extensions.permessage_deflate {
                request.append("Sec-WebSocket-Extensions: permessage-deflate");
                if let Some(true) = extensions.client_no_context_takeover {
                    request.append("; client_no_context_takeover");
                }
                if let Some(true) = extensions.server_no_context_takeover {
                    request.append("; server_no_context_takeover");
                }
                if let Some(bits) = extensions.client_max_window_bits {
                    request.append("; client_max_window_bits=");
                    push_decimal(request, bits as u16);
                }
                if let Some(bits) = extensions.server_max_window_bits {
                    request.append("; server_max_window_bits=");
                    push_decimal(request, bits as u16);
                }
            }
            request.append("\r\n\r\n");
            assert(request@ =~= old(request)@ + spec_extension_header_tail(Some(extensions)));
        },
    }
}

} // verus!
