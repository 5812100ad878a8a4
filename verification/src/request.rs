//! The HTTP side of the opening handshake: building the client's upgrade
//! request from a WebSocket URL, and parsing an upgrade request that was
//! read off the wire.

use vstd::prelude::*;
use vstd::string::{StrSliceExecFns, StringExecFns};
use vstd::utf8::{encode_utf8, valid_utf8};
use crate::bytetext::{
    bytes_eq, find_pat, lemma_find_pat_found, seq_views, spec_find_pat, spec_trim, split_bytes,
    split_on, subvec, trim,
};
use crate::decimal::{push_decimal, spec_dec_chars};
use crate::error::Error;
use crate::extensions::{spec_extension_header_tail, add_extension_headers, Extensions};
use crate::message::string_from_utf8;

verus! {

/// The bytes of the blank line that ends an HTTP header block.
pub open spec fn tok_crlfcrlf() -> Seq<u8> {
    seq![13u8, 10, 13, 10]
}

/// The bytes of `": "`, the name/value separator inside a header line.
pub open spec fn tok_colon_space() -> Seq<u8> {
    seq![58u8, 32]
}

/// A line with one trailing carriage return removed.
pub open spec fn spec_strip_cr(line: Seq<u8>) -> Seq<u8> {
    if line.len() > 0 && line[line.len() - 1] == 13 {
        line.drop_last()
    } else {
        line
    }
}

/// The non-empty fields of a field list, in order.
pub open spec fn spec_nonempty(fs: Seq<Seq<u8>>) -> Seq<Seq<u8>>
    decreases fs.len(),
{
    if fs.len() == 0 {
        Seq::<Seq<u8>>::empty()
    } else {
        spec_nonempty(fs.drop_last()) + (if fs.last().len() > 0 {
            seq![fs.last()]
        } else {
            Seq::<Seq<u8>>::empty()
        })
    }
}

/// The whitespace-separated tokens of a request line.
pub open spec fn spec_line_tokens(line: Seq<u8>) -> Seq<Seq<u8>> {
    spec_nonempty(split_on(spec_strip_cr(line), 32))
}

/// The name/value pair a header line carries: the bytes before the first
/// `": "`, and the trimmed bytes after it.  A line without `": "` carries
/// none.
pub open spec fn spec_header_pair(line: Seq<u8>) -> Option<(Seq<u8>, Seq<u8>)> {
    let l = spec_strip_cr(line);
    match spec_find_pat(l, tok_colon_space()) {
        Some(i) => Some((l.subrange(0, i), spec_trim(l.subrange(i + 2, l.len() as int)))),
        None => None,
    }
}

/// The header pairs of a list of lines, in order, lines without a pair
/// skipped.
pub open spec fn spec_collect_headers(lines: Seq<Seq<u8>>) -> Seq<(Seq<u8>, Seq<u8>)>
    decreases lines.len(),
{
    if lines.len() == 0 {
        Seq::<(Seq<u8>, Seq<u8>)>::empty()
    } else {
        spec_collect_headers(lines.drop_last()) + (match spec_header_pair(lines.last()) {
            Some(p) => seq![p],
            None => Seq::<(Seq<u8>, Seq<u8>)>::empty(),
        })
    }
}

/// Whether a header line's name and value bytes, where the line carries
/// a pair, are valid UTF-8 — the condition for storing them as strings.
pub open spec fn spec_pair_utf8_ok(line: Seq<u8>) -> bool {
    match spec_header_pair(line) {
        Some(p) => valid_utf8(p.0) && valid_utf8(p.1),
        None => true,
    }
}

/// Whether every header pair among the lines is valid UTF-8.
pub open spec fn spec_lines_utf8_ok(lines: Seq<Seq<u8>>) -> bool
    decreases lines.len(),
{
    if lines.len() == 0 {
        true
    } else {
        spec_lines_utf8_ok(lines.drop_last()) && spec_pair_utf8_ok(lines.last())
    }
}

/// A line whose pair has a component that is not valid UTF-8 refutes
/// `spec_lines_utf8_ok` for any list containing it.
proof fn lemma_lines_utf8_not_ok(lines: Seq<Seq<u8>>, k: int)
    requires
        0 <= k < lines.len(),
        !spec_pair_utf8_ok(lines[k]),
    ensures
        !spec_lines_utf8_ok(lines),
{
    if spec_lines_utf8_ok(lines) {
        lemma_lines_utf8_at(lines, k);
    }
}

/// When every header pair is valid UTF-8, so is the pair of each single
/// line.
proof fn lemma_lines_utf8_at(lines: Seq<Seq<u8>>, k: int)
    requires
        spec_lines_utf8_ok(lines),
        0 <= k < lines.len(),
    ensures
        spec_pair_utf8_ok(lines[k]),
    decreases lines.len(),
{
    if k < lines.len() - 1 {
        lemma_lines_utf8_at(lines.drop_last(), k);
        assert(lines.drop_last()[k] == lines[k]);
    }
}

/// Whether the stored header strings carry exactly these byte pairs.
pub open spec fn spec_headers_match(hs: Seq<(String, String)>, pairs: Seq<(Seq<u8>, Seq<u8>)>) -> bool {
    &&& hs.len() == pairs.len()
    &&& forall|i: int|
        0 <= i < hs.len() ==> encode_utf8(#[trigger] hs[i].0@) == pairs[i].0 && encode_utf8(
            hs[i].1@,
        ) == pairs[i].1
}

/// An ASCII byte lowered: letters `A` through `Z` gain 32.
pub open spec fn spec_lower(b: u8) -> u8 {
    if 65 <= b <= 90 {
        (b + 32) as u8
    } else {
        b
    }
}

/// A byte sequence lowered byte for byte.
pub open spec fn spec_lower_seq(s: Seq<u8>) -> Seq<u8> {
    Seq::new(s.len(), |i: int| spec_lower(s[i]))
}

/// The first header whose name equals `key` under ASCII case folding,
/// if any; its value.
pub open spec fn spec_header_lookup(hs: Seq<(String, String)>, key: Seq<char>) -> Option<
    Seq<char>,
>
    decreases hs.len(),
{
    if hs.len() == 0 {
        None
    } else if spec_lower_seq(encode_utf8(hs[0].0@)) == spec_lower_seq(encode_utf8(key)) {
        Some(hs[0].1@)
    } else {
        spec_header_lookup(hs.drop_first(), key)
    }
}

/// A parsed HTTP request: the request line, the header lines in order,
/// and whatever bytes followed the blank line in the buffer.
#[derive(Debug)]
pub struct HttpRequest {
    pub method: String,
    pub uri: String,
    pub version: String,
    pub headers: Vec<(String, String)>,
    pub body: Vec<u8>,
}

fn strip_cr_vec(line: Vec<u8>) -> (r: Vec<u8>)
    ensures
        r@ == spec_strip_cr(line@),
{
    let mut line = line;
    let n = line.len();
    if n > 0 && line[n - 1] == 13 {
        let ghost before = line@;
        line.pop();
        assert(line@ =~= before.drop_last());
    }
    line
}

fn line_tokens(line: Vec<u8>) -> (r: Vec<Vec<u8>>)
    ensures
        seq_views(r@) == spec_line_tokens(line@),
{
    let ghost lv = line@;
    let stripped = strip_cr_vec(line);
    let fields = split_bytes(&stripped, 32);
    let ghost fs = seq_views(fields@);
    let mut out: Vec<Vec<u8>> = Vec::new();
    let mut k: usize = 0;
    proof {
        assert(fs.subrange(0, 0) =~= Seq::<Seq<u8>>::empty());
        assert(spec_nonempty(fs.subrange(0, 0)) =~= Seq::<Seq<u8>>::empty());
        assert(seq_views(out@) =~= Seq::<Seq<u8>>::empty());
    }
    while k < fields.len()
        invariant
            k <= fields@.len(),
            fs == seq_views(fields@),
            seq_views(out@) == spec_nonempty(fs.subrange(0, k as int)),
        decreases fields@.len() - k,
    {
        let ghost pre = fs.subrange(0, k as int);
        let ghost pre2 = fs.subrange(0, k + 1);
        proof {
            assert(pre2.drop_last() =~~= pre);
            assert(pre2.last() == fields@[k as int]@);
        }
        if fields[k].len() > 0 {
            let ghost o = out@;
            let piece = fields[k].clone();
            assert(piece@ =~= fields@[k as int]@);
            out.push(piece);
            proof {
                assert(seq_views(out@) =~~= seq_views(o) + seq![fields@[k as int]@]);
                assert(seq_views(out@) =~~= spec_nonempty(pre2));
            }
        } else {
            proof {
                assert(spec_nonempty(pre2) =~~= spec_nonempty(pre));
            }
        }
        k = k + 1;
    }
    proof {
        assert(fs.subrange(0, fs.len() as int) =~~= fs);
    }
    out
}

impl HttpRequest {
    /// Parse one HTTP request out of the text read from the duplex: the
    /// request line's three tokens, the header name/value pairs in
    /// order, and the bytes after the blank line as the body.  A buffer
    /// with no blank line, or a request line with fewer than three
    /// tokens, is rejected.
    pub fn parse_http_request(raw: &str) -> (r: Result<HttpRequest, Error>)
        ensures
            ({
                let b = encode_utf8(raw@);
                match spec_find_pat(b, tok_crlfcrlf()) {
                    None => r == Err::<HttpRequest, Error>(Error::IncompleteHTTPRequest),
                    Some(d) => {
                        let header = b.subrange(0, d);
                        let lines = split_on(header, 10);
                        let toks = spec_line_tokens(lines[0]);
                        &&& (toks.len() < 3 ==> r == Err::<HttpRequest, Error>(
                            Error::HttpParseError,
                        ))
                        &&& (r is Ok ==> {
                            let req = r->Ok_0;
                            &&& toks.len() >= 3
                            &&& encode_utf8(req.method@) == toks[0]
                            &&& encode_utf8(req.uri@) == toks[1]
                            &&& encode_utf8(req.version@) == toks[2]
                            &&& spec_headers_match(req.headers@, spec_collect_headers(
                                lines.drop_first(),
                            ))
                            &&& req.body@ == b.subrange(d + 4, b.len() as int)
                        })
                        &&& (r is Err ==> r->Err_0 == Error::HttpParseError)
                        &&& (r is Ok <==> toks.len() >= 3 && valid_utf8(toks[0]) && valid_utf8(
                            toks[1],
                        ) && valid_utf8(toks[2]) && spec_lines_utf8_ok(lines.drop_first()))
                    },
                }
            }),
    {
        let bytes = raw.as_bytes_vec();
        let mut delim: Vec<u8> = Vec::new();
        delim.push(13);
        delim.push(10);
        delim.push(13);
        delim.push(10);
        assert(delim@ =~= tok_crlfcrlf());
        let d = match find_pat(&bytes, &delim) {
            Some(d) => d,
            None => {
                return Err(Error::IncompleteHTTPRequest);
            },
        };
        let n = bytes.len();
        proof {
            lemma_find_pat_found(bytes@, tok_crlfcrlf());
            assert(d + 4 <= n);
        }
        let header = subvec(&bytes, 0, d);
        let body = subvec(&bytes, d + 4, n);
        let lines = split_bytes(&header, 10);
        let toks = line_tokens(lines[0].clone());
        proof {
            assert(lines@[0]@ == split_on(header@, 10)[0]);
        }
        if toks.len() < 3 {
            return Err(Error::HttpParseError);
        }
        let method = match string_from_utf8(toks[0].clone()) {
            Ok(s) => s,
            Err(_) => {
                return Err(Error::HttpParseError);
            },
        };
        let uri = match string_from_utf8(toks[1].clone()) {
            Ok(s) => s,
            Err(_) => {
                return Err(Error::HttpParseError);
            },
        };
        let version = match string_from_utf8(toks[2].clone()) {
            Ok(s) => s,
            Err(_) => {
                return Err(Error::HttpParseError);
            },
        };
        let mut colon_space: Vec<u8> = Vec::new();
        colon_space.push(58);
        colon_space.push(32);
        assert(colon_space@ =~= tok_colon_space());
        let ghost line_seq = split_on(header@, 10);
        let mut headers: Vec<(String, String)> = Vec::new();
        let mut k: usize = 1;
        proof {
            assert(line_seq.drop_first().subrange(0, 0) =~~= Seq::<Seq<u8>>::empty());
            assert(spec_collect_headers(line_seq.drop_first().subrange(0, 0)) =~= Seq::<
                (Seq<u8>, Seq<u8>),
            >::empty());
            assert(spec_lines_utf8_ok(line_seq.drop_first().subrange(0, 0)));
        }
        while k < lines.len()
            invariant
                1 <= k <= lines@.len(),
                colon_space@ == tok_colon_space(),
                seq_views(lines@) == line_seq,
                line_seq.len() >= 1,
                line_seq == split_on(encode_utf8(raw@).subrange(0, d as int), 10),
                spec_find_pat(encode_utf8(raw@), tok_crlfcrlf()) == Some(d as int),
                spec_headers_match(headers@, spec_collect_headers(
                    line_seq.drop_first().subrange(0, k - 1),
                )),
                spec_lines_utf8_ok(line_seq.drop_first().subrange(0, k - 1)),
            decreases lines@.len() - k,
        {
            let ghost pre = line_seq.drop_first().subrange(0, k - 1);
            let ghost pre2 = line_seq.drop_first().subrange(0, k as int);
            proof {
                assert(pre2.drop_last() =~~= pre);
                assert(pre2.last() == line_seq[k as int]);
                assert(line_seq[k as int] == lines@[k as int]@);
            }
            let l = strip_cr_vec(lines[k].clone());
            match find_pat(&l, &colon_space) {
                Some(i) => {
                    proof {
                        lemma_find_pat_found(l@, tok_colon_space());
                    }
                    let key_bytes = subvec(&l, 0, i);
                    let value_bytes = trim(subvec(&l, i + 2, l.len()));
                    let ghost pair = spec_header_pair(line_seq[k as int])->0;
                    let key = match string_from_utf8(key_bytes) {
                        Ok(s) => s,
                        Err(_) => {
                            proof {
                                lemma_lines_utf8_not_ok(line_seq.drop_first(), k - 1);
                            }
                            return Err(Error::HttpParseError);
                        },
                    };
                    let value = match string_from_utf8(value_bytes) {
                        Ok(s) => s,
                        Err(_) => {
                            proof {
                                lemma_lines_utf8_not_ok(line_seq.drop_first(), k - 1);
                            }
                            return Err(Error::HttpParseError);
                        },
                    };
                    let ghost hs = headers@;
                    headers.push((key, value));
                    proof {
                        assert(spec_collect_headers(pre2) =~= spec_collect_headers(pre) + seq![
                            spec_header_pair(line_seq[k as int])->0,
                        ]);
                        assert(headers@ =~= hs.push((key, value)));
                        assert(spec_pair_utf8_ok(line_seq[k as int]));
                        assert(spec_lines_utf8_ok(pre2));
                    }
                },
                None => {
                    proof {
                        assert(spec_collect_headers(pre2) =~= spec_collect_headers(pre));
                        assert(spec_pair_utf8_ok(line_seq[k as int]));
                        assert(spec_lines_utf8_ok(pre2));
                    }
                },
            }
            k = k + 1;
        }
        proof {
            assert(line_seq.drop_first().subrange(0, line_seq.drop_first().len() as int)
                =~~= line_seq.drop_first());
        }
        Ok(HttpRequest { method, uri, version, headers, body })
    }

    /// The value of the first header whose name matches `key` under
    /// ASCII case folding, if any.
    pub fn get_header_value(&self, key: &str) -> (r: Option<String>)
        ensures
            r is Some <==> spec_header_lookup(self.headers@, key@) is Some,
            r is Some ==> r->0@ == spec_header_lookup(self.headers@, key@)->0,
    {
        let key_bytes = key.as_bytes_vec();
        let mut i: usize = 0;
        proof {
            assert(self.headers@.subrange(0, self.headers@.len() as int) =~= self.headers@);
        }
        while i < self.headers.len()
            invariant
                i <= self.headers@.len(),
                key_bytes@ == encode_utf8(key@),
                spec_header_lookup(self.headers@, key@) == spec_header_lookup(
                    self.headers@.subrange(i as int, self.headers@.len() as int),
                    key@,
                ),
            decreases self.headers@.len() - i,
        {
            let ghost suf = self.headers@.subrange(i as int, self.headers@.len() as int);
            proof {
                assert(suf[0] == self.headers@[i as int]);
                assert(suf.drop_first() =~= self.headers@.subrange(
                    i + 1,
                    self.headers@.len() as int,
                ));
            }
            let name_bytes = self.headers[i].0.as_str().as_bytes_vec();
            if bytes_eq_nocase(&name_bytes, &key_bytes) {
                return Some(self.headers[i].1.clone());
            }
            i = i + 1;
        }
        proof {
            assert(self.headers@.subrange(
                self.headers@.len() as int,
                self.headers@.len() as int,
            ) =~= Seq::<(String, String)>::empty());
        }
        None
    }
}

/// Whether two byte strings are equal under ASCII case folding.
pub(crate) fn bytes_eq_nocase(a: &Vec<u8>, b: &Vec<u8>) -> (r: bool)
    ensures
        r == (spec_lower_seq(a@) == spec_lower_seq(b@)),
{
    if a.len() != b.len() {
        assert(spec_lower_seq(a@).len() != spec_lower_seq(b@).len());
        return false;
    }
    let mut i: usize = 0;
    while i < a.len()
        invariant
            a@.len() == b@.len(),
            i <= a@.len(),
            forall|j: int| 0 <= j < i ==> spec_lower(a@[j]) == spec_lower(b@[j]),
        decreases a@.len() - i,
    {
        let x = a[i];
        let y = b[i];
        let xl = if 65 <= x && x <= 90 { x + 32 } else { x };
        let yl = if 65 <= y && y <= 90 { y + 32 } else { y };
        if xl != yl {
            assert(spec_lower_seq(a@)[i as int] != spec_lower_seq(b@)[i as int]);
            return false;
        }
        i = i + 1;
    }
    assert(spec_lower_seq(a@) =~= spec_lower_seq(b@));
    true
}

/// Everything the library reads out of a parsed URL; the `url` crate
/// fills it in, and the verified logic works on these plain parts.
pub struct UrlParts {
    pub scheme: String,
    pub host: Option<String>,
    pub port: Option<u16>,
    pub path: String,
    pub query: Option<String>,
}

/// What `url::Url::parse` makes of a URL text, which depends on the text
/// alone: `None` when the text does not parse as a URL, and otherwise
/// the scheme, host, port, path and query, exactly as the crate's
/// accessors hand them out.
pub uninterp spec fn url_parse_of(url: Seq<char>) -> Option<
    (Seq<char>, Option<Seq<char>>, Option<u16>, Seq<char>, Option<Seq<char>>),
>;

/// Relies on `url::Url::parse` and its accessors `scheme`, `host_str`,
/// `port`, `path` and `query`: parsing succeeds exactly when the text is
/// a URL, and the parts are the parse outcome, field for field.
#[verifier::external_body]
fn parse_url(ws_url: &str) -> (r: Result<UrlParts, Error>)
    ensures
        r is Ok <==> url_parse_of(ws_url@) is Some,
        r is Err ==> r->Err_0 == Error::URLParseError,
        r is Ok ==> {
            let p = url_parse_of(ws_url@)->0;
            &&& r->Ok_0.scheme@ == p.0
            &&& (r->Ok_0.host is Some <==> p.1 is Some)
            &&& (r->Ok_0.host is Some ==> r->Ok_0.host->0@ == p.1->0)
            &&& r->Ok_0.port == p.2
            &&& r->Ok_0.path@ == p.3
            &&& (r->Ok_0.query is Some <==> p.4 is Some)
            &&& (r->Ok_0.query is Some ==> r->Ok_0.query->0@ == p.4->0)
        },
{
    match url::Url::parse(ws_url) {
        Ok(u) => Ok(
            UrlParts {
                scheme: u.scheme().to_string(),
                host: u.host_str().map(|h| h.to_string()),
                port: u.port(),
                path: u.path().to_string(),
                query: u.query().map(|q| q.to_string()),
            },
        ),
        Err(_) => Err(Error::URLParseError),
    }
}

/// The `Host` header value: the host, with the port appended only when
/// the URL named one explicitly.
pub open spec fn spec_host_field(host: Seq<char>, port: Option<u16>) -> Seq<char> {
    match port {
        Some(p) => host + ":"@ + spec_dec_chars(p as nat),
        None => host,
    }
}

/// The request target: the path, with the query appended after `?` when
/// there is one.
pub open spec fn spec_request_path(path: Seq<char>, query: Option<Seq<char>>) -> Seq<char> {
    match query {
        Some(q) => path + "?"@ + q,
        None => path,
    }
}

/// The whole upgrade request for the given URL components, key and
/// extension offer.
pub open spec fn spec_upgrade_request(
    host: Seq<char>,
    port: Option<u16>,
    path: Seq<char>,
    query: Option<Seq<char>>,
    key: Seq<char>,
    extensions: Option<Extensions>,
) -> Seq<char> {
    "GET "@ + spec_request_path(path, query) + " HTTP/1.1\r\nHost: "@ + spec_host_field(
        host,
        port,
    ) + "\r\nConnection: Upgrade\r\nUpgrade: websocket\r\nSec-WebSocket-Key: "@ + key
        + "\r\nSec-WebSocket-Version: 13\r\n"@ + spec_extension_header_tail(extensions)
}

/// The query component's view, where there is one.
pub open spec fn spec_query_view(query: Option<String>) -> Option<Seq<char>> {
    match query {
        Some(q) => Some(q@),
        None => None,
    }
}

/// Build the client's upgrade request from already-parsed URL parts:
/// only `ws` and `wss` schemes are accepted, a URL without a host is
/// refused, and the connect address gets the explicit port or the
/// scheme's default.  Returns the request text, the `host:port` address
/// to connect to, the bare host, and whether TLS is wanted.
pub fn build_http_request(parts: UrlParts, key: &str, extensions: Option<Extensions>) -> (r:
    Result<(String, String, String, bool), Error>)
    ensures
        parts.scheme@ != "ws"@ && parts.scheme@ != "wss"@ ==> r == Err::<
            (String, String, String, bool),
            Error,
        >(Error::InvalidSchemeURL),
        (parts.scheme@ == "ws"@ || parts.scheme@ == "wss"@) && parts.host is None ==> r == Err::<
            (String, String, String, bool),
            Error,
        >(Error::URLNoHost),
        (parts.scheme@ == "ws"@ || parts.scheme@ == "wss"@) && parts.host is Some ==> r is Ok && {
            let use_tls = parts.scheme@ == "wss"@;
            let port: u16 = match parts.port {
                Some(p) => p,
                None => if use_tls { 443 } else { 80 },
            };
            &&& r->Ok_0.0@ == spec_upgrade_request(parts.host->0@, parts.port, parts.path@,
                spec_query_view(parts.query), key@, extensions)
            &&& r->Ok_0.1@ == parts.host->0@ + ":"@ + spec_dec_chars(port as nat)
            &&& r->Ok_0.2@ == parts.host->0@
            &&& r->Ok_0.3 == use_tls
        },
{
    let ws = String::from_str("ws");
    let wss = String::from_str("wss");
    let is_ws = parts.scheme == ws;
    let is_wss = parts.scheme == wss;
    if !is_ws && !is_wss {
        return Err(Error::InvalidSchemeURL);
    }
    let use_tls = is_wss;
    let http_port: u16 = if use_tls { 443 } else { 80 };
    let host = match &parts.host {
        Some(h) => h.clone(),
        None => {
            return Err(Error::URLNoHost);
        },
    };
    let port: u16 = match parts.port {
        Some(p) => p,
        None => http_port,
    };
    let mut request_host_field = host.clone();
    if let Some(p) = parts.port {
        request_host_field.append(":");
        push_decimal(&mut request_host_field, p);
    }
    let mut host_with_port = host.clone();
    host_with_port.append(":");
    push_decimal(&mut host_with_port, port);
    let mut request_path = parts.path.clone();
    if let Some(q) = &parts.query {
        request_path.append("?");
        request_path.append(q.as_str());
    }
    let mut request = String::from_str("GET ");
    request.append(request_path.as_str());
    request.append(" HTTP/1.1\r\nHost: ");
    request.append(request_host_field.as_str());
    request.append("\r\nConnection: Upgrade\r\nUpgrade: websocket\r\nSec-WebSocket-Key: ");
    request.append(key);
    request.append("\r\nSec-WebSocket-Version: 13\r\n");
    add_extension_headers(&mut request, extensions);
    proof {
        assert(request@ =~= spec_upgrade_request(parts.host->0@, parts.port, parts.path@,
            spec_query_view(parts.query), key@, extensions));
        assert(host_with_port@ =~= parts.host->0@ + ":"@ + spec_dec_chars(port as nat));
    }
    Ok((request, host_with_port, host, use_tls))
}

/// Parse a WebSocket URL and build the client's upgrade request from it:
/// a text that is no URL is refused as `URLParseError`, a scheme other
/// than `ws` or `wss` as `InvalidSchemeURL`, a URL without a host as
/// `URLNoHost`; otherwise the result is the upgrade request for the
/// parsed components, the `host:port` connect address with the scheme's
/// default port where the URL named none, the bare host, and whether
/// the scheme asks for TLS.
pub fn construct_http_request(ws_url: &str, key: &str, extensions: Option<Extensions>) -> (r:
    Result<(String, String, String, bool), Error>)
    ensures
        ({
            let u = url_parse_of(ws_url@);
            &&& (u is None ==> r == Err::<(String, String, String, bool), Error>(
                Error::URLParseError,
            ))
            &&& (u is Some ==> {
                let p = u->0;
                &&& (p.0 != "ws"@ && p.0 != "wss"@ ==> r == Err::<
                    (String, String, String, bool),
                    Error,
                >(Error::InvalidSchemeURL))
                &&& ((p.0 == "ws"@ || p.0 == "wss"@) && p.1 is None ==> r == Err::<
                    (String, String, String, bool),
                    Error,
                >(Error::URLNoHost))
                &&& ((p.0 == "ws"@ || p.0 == "wss"@) && p.1 is Some ==> r is Ok && {
                    let use_tls = p.0 == "wss"@;
                    let port: u16 = match p.2 {
                        Some(prt) => prt,
                        None => if use_tls { 443u16 } else { 80u16 },
                    };
                    &&& r->Ok_0.0@ == spec_upgrade_request(p.1->0, p.2, p.3, p.4, key@,
                        extensions)
                    &&& r->Ok_0.1@ == p.1->0 + ":"@ + spec_dec_chars(port as nat)
                    &&& r->Ok_0.2@ == p.1->0
                    &&& r->Ok_0.3 == use_tls
                })
            })
        }),
{
    let parts = parse_url(ws_url)?;
    let ghost gparts = parts;
    let r = build_http_request(parts, key, extensions);
    proof {
        let p = url_parse_of(ws_url@)->0;
        if gparts.query is Some {
            assert(spec_query_view(gparts.query) == p.4);
        } else {
            assert(p.4 is None);
        }
        if gparts.host is Some {
            assert(gparts.host->0@ == p.1->0);
        }
    }
    r
}

} // verus!
