//! Handshake behaviour: request construction, HTTP parsing, the accept
//! key, extension negotiation, and the deflate pipeline.

use socket_flow::compression::{Decoder, Encoder};
use socket_flow::config::WebSocketConfig;
use socket_flow::error::Error;
use socket_flow::extensions::{
    add_extension_headers, merge_extensions, parse_extensions, Extensions, MaxWindowBits,
};
use socket_flow::frame::OpCode;
use socket_flow::handshake::{
    create_decoder, create_encoder, generate_websocket_accept_value, generate_websocket_key,
    parse_handshake_client, parse_handshake_server,
};
use socket_flow::message::Message;
use socket_flow::read::{read_frame, ReadEvent, ReadStream};
use socket_flow::request::{construct_http_request, HttpRequest};
use socket_flow::split::WSWriter;
use socket_flow::write::{Writer, WriterKind};

#[test]
fn test_parse_to_http_request_valid() {
    let (request, host_with_port, host, use_tls) =
        construct_http_request("ws://localhost:8080", "dGhlIHNhbXBsZSBub25jZQ==", None).unwrap();
    assert_eq!(host_with_port, "localhost:8080");
    assert_eq!(host, "localhost");
    assert_eq!(use_tls, false);
    assert!(request.starts_with("GET / HTTP/1.1"));
    assert!(request.contains("Host: localhost"));
    assert!(request.contains("Upgrade: websocket"));
    assert!(request.contains("Sec-WebSocket-Key: dGhlIHNhbXBsZSBub25jZQ=="));
}

#[test]
fn test_parse_to_http_request_invalid_scheme() {
    let result = construct_http_request("ftp://localhost:8080", "dGhlIHNhbXBsZSBub25jZQ==", None);
    assert!(result.is_err());
}

#[test]
fn test_parse_to_http_request_no_host() {
    let result = construct_http_request("ws://:8080", "dGhlIHNhbXBsZSBub25jZQ==", None);
    assert!(result.is_err());
}

#[test]
fn accept_key_matches_rfc_sample() {
    let accept = generate_websocket_accept_value("dGhlIHNhbXBsZSBub25jZQ==".to_string());
    assert_eq!(accept, "s3pPLMBiTxaQ9kYGzzhZRbK+xOo=");
}

#[test]
fn generated_key_is_base64_of_16_bytes() {
    let key = generate_websocket_key();
    assert_eq!(key.len(), 24);
    assert!(key.ends_with("=="));
}

fn sample_request(extra: &str) -> HttpRequest {
    let raw = format!(
        "GET / HTTP/1.1\r\nHost: localhost\r\nUpgrade: websocket\r\nConnection: Upgrade\r\n\
         Sec-WebSocket-Version: 13\r\nSec-WebSocket-Key: dGhlIHNhbXBsZSBub25jZQ==\r\n{}\r\n",
        extra
    );
    HttpRequest::parse_http_request(&raw).unwrap()
}

#[test]
fn http_request_parses_into_parts() {
    let req = sample_request("");
    assert_eq!(req.method, "GET");
    assert_eq!(req.uri, "/");
    assert_eq!(req.version, "HTTP/1.1");
    assert_eq!(
        req.get_header_value("Host").as_deref(),
        Some("localhost")
    );
    // Lookup is case-insensitive on the header name.
    assert_eq!(
        req.get_header_value("sec-websocket-key").as_deref(),
        Some("dGhlIHNhbXBsZSBub25jZQ==")
    );
    assert_eq!(req.get_header_value("absent"), None);
    assert!(req.body.is_empty());
}

#[test]
fn http_request_without_blank_line_is_incomplete() {
    assert_eq!(
        HttpRequest::parse_http_request("GET / HTTP/1.1\r\nHost: x\r\n").unwrap_err(),
        Error::IncompleteHTTPRequest
    );
}

#[test]
fn server_handshake_yields_rfc_accept_header() {
    let req = sample_request("");
    let (response, agreed) = parse_handshake_server(&req, None).unwrap();
    assert!(response.starts_with("HTTP/1.1 101 Switching Protocols"));
    assert!(response.contains("Sec-WebSocket-Accept: s3pPLMBiTxaQ9kYGzzhZRbK+xOo="));
    assert!(response.ends_with("\r\n\r\n"));
    assert!(agreed.is_none());
}

#[test]
fn server_handshake_rejects_bad_requests() {
    let mut req = sample_request("");
    req.method = "POST".to_string();
    assert_eq!(
        parse_handshake_server(&req, None).unwrap_err(),
        Error::InvalidHTTPHandshake
    );

    let raw = "GET / HTTP/1.1\r\nUpgrade: websocket\r\nConnection: Upgrade\r\n\
               Sec-WebSocket-Version: 13\r\nSec-WebSocket-Key: x\r\n\r\n";
    let req = HttpRequest::parse_http_request(raw).unwrap();
    assert_eq!(
        parse_handshake_server(&req, None).unwrap_err(),
        Error::NoHostHeaderPresent
    );

    let raw = "GET / HTTP/1.1\r\nHost: x\r\nUpgrade: websocket\r\nConnection: Upgrade\r\n\
               Sec-WebSocket-Version: 13\r\n\r\n";
    let req = HttpRequest::parse_http_request(raw).unwrap();
    assert_eq!(
        parse_handshake_server(&req, None).unwrap_err(),
        Error::NoSecWebsocketKey
    );

    let raw = "GET / HTTP/1.1\r\nHost: x\r\nConnection: Upgrade\r\n\
               Sec-WebSocket-Version: 13\r\nSec-WebSocket-Key: x\r\n\r\n";
    let req = HttpRequest::parse_http_request(raw).unwrap();
    assert_eq!(
        parse_handshake_server(&req, None).unwrap_err(),
        Error::NoUpgradeHeaderPresent
    );
}

#[test]
fn server_handshake_rejects_bad_window_bits() {
    let req = sample_request("Sec-WebSocket-Extensions: permessage-deflate; client_max_window_bits=20\r\n");
    let policy = Some(Extensions {
        permessage_deflate: true,
        client_no_context_takeover: None,
        server_no_context_takeover: None,
        client_max_window_bits: None,
        server_max_window_bits: None,
    });
    assert_eq!(
        parse_handshake_server(&req, policy).unwrap_err(),
        Error::InvalidMaxWindowBits
    );
}

#[test]
fn client_handshake_checks_accept_value() {
    let response = "HTTP/1.1 101 Switching Protocols\r\nConnection: Upgrade\r\n\
                    Upgrade: websocket\r\nSec-WebSocket-Accept: s3pPLMBiTxaQ9kYGzzhZRbK+xOo=\r\n\r\n";
    let req = HttpRequest::parse_http_request(response).unwrap();
    let ext = parse_handshake_client(&req, "dGhlIHNhbXBsZSBub25jZQ==".to_string()).unwrap();
    assert!(ext.is_none());

    // A wrong accept value is refused.
    let err = parse_handshake_client(&req, "b3RoZXIgbm9uY2UgdmFsdWU=".to_string()).unwrap_err();
    assert_eq!(err, Error::InvalidAcceptKey);

    // A value that merely contains the expected key is refused too: the
    // header must equal the accept key byte for byte.
    let padded = "HTTP/1.1 101 Switching Protocols\r\nConnection: Upgrade\r\n\
                  Upgrade: websocket\r\nSec-WebSocket-Accept: xs3pPLMBiTxaQ9kYGzzhZRbK+xOo=y\r\n\r\n";
    let req = HttpRequest::parse_http_request(padded).unwrap();
    let err = parse_handshake_client(&req, "dGhlIHNhbXBsZSBub25jZQ==".to_string()).unwrap_err();
    assert_eq!(err, Error::InvalidAcceptKey);

    // A non-101 answer is refused.
    let response = "HTTP/1.1 200 OK\r\nContent-Length: 0\r\n\r\n";
    let req = HttpRequest::parse_http_request(response).unwrap();
    let err = parse_handshake_client(&req, "dGhlIHNhbXBsZSBub25jZQ==".to_string()).unwrap_err();
    assert_eq!(err, Error::NoUpgrade);
}

#[test]
fn extension_parsing_reads_every_parameter() {
    let ext = parse_extensions(
        "permessage-deflate; client_no_context_takeover; server_max_window_bits=12".to_string(),
    )
    .unwrap();
    assert!(ext.permessage_deflate);
    assert_eq!(ext.client_no_context_takeover, Some(true));
    assert_eq!(ext.server_no_context_takeover, None);
    assert_eq!(ext.client_max_window_bits, None);
    assert_eq!(ext.server_max_window_bits, Some(12));

    // A window-bits token without a value counts as 15.
    let ext = parse_extensions("permessage-deflate; client_max_window_bits".to_string()).unwrap();
    assert_eq!(ext.client_max_window_bits, Some(15));

    // Without permessage-deflate itself there is no offer.
    assert!(parse_extensions("client_max_window_bits=12".to_string()).is_none());
}

#[test]
fn extension_merge_takes_window_bits_minimum() {
    let a = Extensions {
        permessage_deflate: true,
        client_no_context_takeover: Some(true),
        server_no_context_takeover: None,
        client_max_window_bits: Some(11),
        server_max_window_bits: None,
    };
    let b = Extensions {
        permessage_deflate: true,
        client_no_context_takeover: Some(true),
        server_no_context_takeover: None,
        client_max_window_bits: Some(9),
        server_max_window_bits: Some(14),
    };
    let m = merge_extensions(Some(a), Some(b)).unwrap();
    assert!(m.permessage_deflate);
    assert_eq!(m.client_max_window_bits, Some(9));
    assert_eq!(m.server_max_window_bits, Some(14));
    assert_eq!(m.client_no_context_takeover, Some(true));
    assert_eq!(m.server_no_context_takeover, None);

    // The window-bits outcome does not depend on which side is which.
    let m2 = merge_extensions(Some(b), Some(a)).unwrap();
    assert_eq!(m2.client_max_window_bits, m.client_max_window_bits);
    assert_eq!(m2.server_max_window_bits, m.server_max_window_bits);

    assert!(merge_extensions(Some(a), None).is_none());
}

#[test]
fn extension_headers_are_emitted_only_on_agreement() {
    let mut s = String::from("X");
    add_extension_headers(&mut s, None);
    assert_eq!(s, "X\r\n");

    let mut s = String::new();
    add_extension_headers(
        &mut s,
        Some(Extensions {
            permessage_deflate: true,
            client_no_context_takeover: Some(true),
            server_no_context_takeover: None,
            client_max_window_bits: Some(12),
            server_max_window_bits: None,
        }),
    );
    assert_eq!(
        s,
        "Sec-WebSocket-Extensions: permessage-deflate; client_no_context_takeover; client_max_window_bits=12\r\n\r\n"
    );
}

#[test]
fn window_bits_tags_cover_8_through_15() {
    assert!(MaxWindowBits::from_u8(7).is_err());
    assert!(MaxWindowBits::from_u8(16).is_err());
    for v in 8u8..=15 {
        assert_eq!(MaxWindowBits::from_u8(v).unwrap().to_u8(), v);
    }
}

#[test]
fn reset_policy_follows_the_role() {
    let ext = Some(Extensions {
        permessage_deflate: true,
        client_no_context_takeover: Some(true),
        server_no_context_takeover: None,
        client_max_window_bits: None,
        server_max_window_bits: None,
    });
    // The client's flag governs what the server reads and what the
    // client writes; the server's flag is not set here.
    assert!(create_decoder(&ext, &WriterKind::Server).reset_context);
    assert!(!create_decoder(&ext, &WriterKind::Client).reset_context);
    assert!(!create_encoder(&ext, &WriterKind::Server).reset_context);
    assert!(create_encoder(&ext, &WriterKind::Client).reset_context);
}

#[test]
fn test_compress_decompress_payload_reset_context() {
    let payload = vec![1, 2, 3, 4, 5];

    let mut encoder = Encoder::new(true, Some(15));
    let mut decoder = Decoder::new(true, Some(15));

    let encoded_data = encoder.compress(&payload).unwrap();
    let decoded_data = decoder.decompress(&encoded_data, 1 << 20).unwrap();

    assert_eq!(payload, decoded_data);
}

#[test]
fn test_compress_decompress_payload_keep_context() {
    let payload = vec![1, 2, 3, 4, 5];

    let mut encoder = Encoder::new(false, Some(15));
    let mut decoder = Decoder::new(false, Some(15));

    let encoded_data = encoder.compress(&payload).unwrap();
    let _ = decoder.decompress(&encoded_data, 1 << 20).unwrap();

    let second_encoded = encoder.compress(&payload).unwrap();
    let second_decoded_data = decoder.decompress(&second_encoded, 1 << 20).unwrap();

    assert_eq!(payload, second_decoded_data);
}

fn deflate_extensions() -> Extensions {
    Extensions {
        permessage_deflate: true,
        client_no_context_takeover: Some(true),
        server_no_context_takeover: Some(true),
        client_max_window_bits: None,
        server_max_window_bits: None,
    }
}

fn generate_users() -> Vec<u8> {
    // A 500-element array of {id, name} records with 30-character names.
    let mut json = String::from("[");
    for id in 0..500 {
        if id > 0 {
            json.push(',');
        }
        let name: String = (0..30)
            .map(|i| char::from(b'a' + ((id as u8).wrapping_add(i)) % 26))
            .collect();
        json.push_str(&format!("{{\"id\":{},\"name\":\"{}\"}}", id, name));
    }
    json.push(']');
    json.into_bytes()
}

#[test]
fn compressed_roundtrip_with_context_reset() {
    let payload = generate_users();
    let mut config = WebSocketConfig::default();
    config.extensions = Some(deflate_extensions());

    // The client compresses; on the wire the first frame carries RSV1.
    let mut cw = WSWriter::new(
        Writer::new(WriterKind::Client),
        config.clone(),
        Encoder::new(true, None),
    );
    let parts = cw.send_as_binary(payload.clone()).unwrap();
    assert!(parts[0][0] & 0x40 == 0x40);
    assert!(parts.concat().len() < payload.len());

    // The server decompresses back to the original bytes.
    let mut reader = ReadStream::new(config.clone(), Decoder::new(true, None));
    let mut bytes = parts.concat();
    let mut got = None;
    loop {
        match read_frame(&bytes, &WriterKind::Server, &config).unwrap() {
            Some((frame, used)) => {
                bytes.drain(..used);
                if let ReadEvent::Deliver(m) = reader.process_frame(frame).unwrap() {
                    got = Some(m);
                }
            }
            None => break,
        }
    }
    assert_eq!(got.unwrap(), Message::Binary(payload.clone()));

    // With reset contexts, a second message goes through just the same.
    let parts = cw.send_as_binary(payload.clone()).unwrap();
    let mut reader2_input = parts.concat();
    let mut got = None;
    loop {
        match read_frame(&reader2_input, &WriterKind::Server, &config).unwrap() {
            Some((frame, used)) => {
                reader2_input.drain(..used);
                if let ReadEvent::Deliver(m) = reader.process_frame(frame).unwrap() {
                    got = Some(m);
                }
            }
            None => break,
        }
    }
    assert_eq!(got.unwrap(), Message::Binary(payload));
}

#[test]
fn small_payloads_are_not_compressed() {
    let mut config = WebSocketConfig::default();
    config.extensions = Some(deflate_extensions());
    let mut cw = WSWriter::new(
        Writer::new(WriterKind::Server),
        config,
        Encoder::new(true, None),
    );
    // One byte stays uncompressed: no RSV1 on the frame.
    let parts = cw.send_as_binary(vec![7u8]).unwrap();
    assert_eq!(parts[0][0] & 0x40, 0);
    assert_eq!(parts[0][1], 1);
    assert_eq!(parts[0][2], 7);

    // The empty message also goes out as one plain final frame.
    let parts = cw.send_as_binary(Vec::new()).unwrap();
    assert_eq!(parts.len(), 1);
    assert_eq!(parts[0], vec![0x82, 0x00]);
}

#[test]
fn opcode_of_message_matches_variant() {
    let mut writer = WSWriter::new(
        Writer::new(WriterKind::Server),
        WebSocketConfig::default(),
        Encoder::new(false, None),
    );
    let parts = writer
        .send_message(Message::Text("hi".to_string()))
        .unwrap();
    assert_eq!(parts[0][0], 0x81);
    let parts = writer.send_message(Message::Binary(vec![1])).unwrap();
    assert_eq!(parts[0][0], 0x82);
    let _ = OpCode::Continue;
}
