//! Frame codec, reader and writer behaviour, exercised end to end in
//! memory: encoding, decoding, masking, fragmentation, reassembly,
//! control frames and the orderly close.

use socket_flow::config::WebSocketConfig;
use socket_flow::compression::{Decoder, Encoder};
use socket_flow::error::Error;
use socket_flow::frame::{apply_mask, Frame, OpCode};
use socket_flow::message::Message;
use socket_flow::read::{read_frame, ReadEvent, ReadStream};
use socket_flow::split::{close_code_for_error, WSWriter};
use socket_flow::write::{write_frame_server, Writer, WriterKind};

fn plain_config() -> WebSocketConfig {
    WebSocketConfig::default()
}

fn server_writer(config: WebSocketConfig) -> WSWriter {
    WSWriter::new(Writer::new(WriterKind::Server), config, Encoder::new(false, None))
}

fn client_writer(config: WebSocketConfig) -> WSWriter {
    WSWriter::new(Writer::new(WriterKind::Client), config, Encoder::new(false, None))
}

/// Decode every frame in a byte stream written by the given peer role.
fn decode_all(mut bytes: Vec<u8>, reader_kind: WriterKind, config: &WebSocketConfig) -> Vec<Frame> {
    let mut frames = Vec::new();
    loop {
        match read_frame(&bytes, &reader_kind, config) {
            Ok(Some((frame, used))) => {
                frames.push(frame);
                bytes.drain(..used);
            }
            Ok(None) => break,
            Err(e) => panic!("unexpected decode error: {:?}", e),
        }
    }
    assert!(bytes.is_empty(), "stream had trailing bytes");
    frames
}

#[test]
fn test_opcode() {
    let byte = 0x0;
    let res = OpCode::from(byte).unwrap();
    assert_eq!(res, OpCode::Continue);

    let opcode = OpCode::Text;
    let op_byte = opcode.as_u8();
    assert_eq!(op_byte, 0x1);

    assert_eq!(OpCode::Close.is_control(), true);
    assert_eq!(OpCode::Text.is_control(), false);
}

#[test]
fn test_frame() {
    let final_fragment = false;
    let opcode = OpCode::Text;
    let payload: Vec<u8> = Vec::new();
    let frame = Frame::new(final_fragment, opcode.clone(), payload.clone(), false);

    assert_eq!(frame.final_fragment, final_fragment);
    assert_eq!(frame.opcode, opcode);
    assert_eq!(frame.payload, payload);
}

#[test]
fn mask_round_trip_is_identity() {
    let mask = [7u8, 0, 255, 42];
    let original: Vec<u8> = (0u8..=200).collect();
    let mut masked = original.clone();
    apply_mask(&mut masked, &mask);
    for (i, byte) in masked.iter().enumerate() {
        assert_eq!(*byte, original[i] ^ mask[i % 4]);
    }
    apply_mask(&mut masked, &mask);
    assert_eq!(masked, original);
}

#[test]
fn length_encoding_boundaries() {
    // 125 bytes: one length byte.
    let f = Frame::new(true, OpCode::Binary, vec![9u8; 125], false);
    let b = write_frame_server(&f, false);
    assert_eq!(b.len(), 2 + 125);
    assert_eq!(b[1], 125);

    // 126 bytes: the marker 126 and two big-endian bytes.
    let f = Frame::new(true, OpCode::Binary, vec![9u8; 126], false);
    let b = write_frame_server(&f, false);
    assert_eq!(b.len(), 4 + 126);
    assert_eq!(b[1], 126);
    assert_eq!((b[2], b[3]), (0, 126));

    // 65535 bytes: still the two-byte form.
    let f = Frame::new(true, OpCode::Binary, vec![9u8; 65535], false);
    let b = write_frame_server(&f, false);
    assert_eq!(b.len(), 4 + 65535);
    assert_eq!(b[1], 126);
    assert_eq!((b[2], b[3]), (255, 255));

    // 65536 bytes: the marker 127 and eight big-endian bytes.
    let f = Frame::new(true, OpCode::Binary, vec![9u8; 65536], false);
    let b = write_frame_server(&f, false);
    assert_eq!(b.len(), 10 + 65536);
    assert_eq!(b[1], 127);
    assert_eq!(&b[2..10], &[0, 0, 0, 0, 0, 1, 0, 0]);
}

#[test]
fn encode_decode_round_trip() {
    let config = plain_config();
    let payload: Vec<u8> = (0u8..=255).cycle().take(300).collect();
    let frame = Frame::new(true, OpCode::Binary, payload.clone(), false);
    let bytes = write_frame_server(&frame, false);

    // A client reads the server's frame back.
    let (decoded, used) = read_frame(&bytes, &WriterKind::Client, &config)
        .unwrap()
        .unwrap();
    assert_eq!(used, bytes.len());
    assert_eq!(decoded.final_fragment, true);
    assert_eq!(decoded.opcode, OpCode::Binary);
    assert_eq!(decoded.payload, payload);
    assert!(!decoded.compressed);

    // Re-encoding the decoded frame restores the original bytes.
    let again = write_frame_server(&decoded, false);
    assert_eq!(again, bytes);
}

#[test]
fn masked_client_frame_decodes_for_server() {
    let config = plain_config();
    let mut writer = client_writer(plain_config());
    let out = writer.send_as_text("TEST".to_string()).unwrap();
    assert_eq!(out.len(), 1);
    let bytes = out.into_iter().next().unwrap();
    // The mask bit is set on the length byte.
    assert_eq!(bytes[1] & 0x80, 0x80);
    let (frame, used) = read_frame(&bytes, &WriterKind::Server, &config)
        .unwrap()
        .unwrap();
    assert_eq!(used, bytes.len());
    assert_eq!(frame.opcode, OpCode::Text);
    assert_eq!(frame.payload, b"TEST".to_vec());
}

#[test]
fn masking_violations_are_rejected() {
    let config = plain_config();

    // A server must reject an unmasked frame.
    let unmasked = write_frame_server(&Frame::new(true, OpCode::Text, b"hi".to_vec(), false), false);
    assert_eq!(
        read_frame(&unmasked, &WriterKind::Server, &config).unwrap_err(),
        Error::MaskingViolation
    );

    // A client must reject a masked frame.
    let mut writer = client_writer(plain_config());
    let masked = writer.send_as_text("hi".to_string()).unwrap().remove(0);
    assert_eq!(
        read_frame(&masked, &WriterKind::Client, &config).unwrap_err(),
        Error::MaskingViolation
    );
}

#[test]
fn echo_text_in_memory() {
    let config = plain_config();

    // Client sends Text "TEST".
    let mut cw = client_writer(plain_config());
    let wire: Vec<u8> = cw
        .send_message(Message::Text("TEST".to_string()))
        .unwrap()
        .concat();

    // Server reads and reassembles it.
    let mut server_reader = ReadStream::new(plain_config(), Decoder::new(false, None));
    let frames = decode_all(wire, WriterKind::Server, &config);
    let mut delivered = None;
    for frame in frames {
        match server_reader.process_frame(frame).unwrap() {
            ReadEvent::Deliver(m) => delivered = Some(m),
            ReadEvent::Nothing => {}
            other => panic!("unexpected event: {:?}", event_name(&other)),
        }
    }
    let message = delivered.expect("no message delivered");
    assert_eq!(message, Message::Text("TEST".to_string()));

    // Server echoes it back; the client reads the same text.
    let mut sw = server_writer(plain_config());
    let echo: Vec<u8> = sw.send_message(message).unwrap().concat();
    let mut client_reader = ReadStream::new(plain_config(), Decoder::new(false, None));
    let frames = decode_all(echo, WriterKind::Client, &config);
    let mut got = None;
    for frame in frames {
        if let ReadEvent::Deliver(m) = client_reader.process_frame(frame).unwrap() {
            got = Some(m);
        }
    }
    assert_eq!(got.unwrap(), Message::Text("TEST".to_string()));

    // Close exchange: the client closes once with output, and a second
    // close produces no further bytes.
    let first = cw.close_connection();
    assert!(first.is_some());
    let close_bytes = first.unwrap();
    let (close_frame, _) = read_frame(&close_bytes, &WriterKind::Server, &config)
        .unwrap()
        .unwrap();
    assert_eq!(close_frame.opcode, OpCode::Close);
    assert!(matches!(
        server_reader.process_frame(close_frame).unwrap(),
        ReadEvent::CloseAndReply
    ));
    assert!(cw.close_connection().is_none());
}

fn event_name(e: &ReadEvent) -> &'static str {
    match e {
        ReadEvent::Nothing => "Nothing",
        ReadEvent::Deliver(_) => "Deliver",
        ReadEvent::SendPong(_) => "SendPong",
        ReadEvent::CloseAndReply => "CloseAndReply",
    }
}

#[test]
fn binary_fragmented_echo() {
    let config = plain_config();
    let payload: Vec<u8> = (0u8..=255).cycle().take(10000).collect();

    // The server-side writer keeps the wire unmasked, so the frame
    // boundaries are easy to check.
    let mut sw = server_writer(plain_config());
    let parts = sw.send_large_data_fragmented(payload.clone(), 4096).unwrap();
    assert_eq!(parts.len(), 3);

    // Frame 1: Binary, not final, 4096 bytes.
    assert_eq!(parts[0][0], 0x02);
    assert_eq!(parts[0].len(), 4 + 4096);
    // Frame 2: Continuation, not final, 4096 bytes.
    assert_eq!(parts[1][0], 0x00);
    assert_eq!(parts[1].len(), 4 + 4096);
    // Frame 3: Continuation, final, 1808 bytes.
    assert_eq!(parts[2][0], 0x80);
    assert_eq!(parts[2].len(), 4 + 1808);

    // The peer reassembles a single identical Binary message.
    let mut reader = ReadStream::new(plain_config(), Decoder::new(false, None));
    let frames = decode_all(parts.concat(), WriterKind::Client, &config);
    assert_eq!(frames.len(), 3);
    let mut got = None;
    for frame in frames {
        match reader.process_frame(frame).unwrap() {
            ReadEvent::Deliver(m) => got = Some(m),
            ReadEvent::Nothing => {}
            _ => panic!("unexpected control event"),
        }
    }
    assert_eq!(got.unwrap(), Message::Binary(payload));
}

#[test]
fn ping_is_answered_with_identical_pong() {
    let config = plain_config();

    // Server sends Ping "hello".
    let ping_frame = Frame::new(true, OpCode::Ping, b"hello".to_vec(), false);
    let ping_bytes = write_frame_server(&ping_frame, false);

    // The client reader asks for a Pong with the same payload, without
    // delivering anything to the consumer.
    let mut client_reader = ReadStream::new(plain_config(), Decoder::new(false, None));
    let (frame, _) = read_frame(&ping_bytes, &WriterKind::Client, &config)
        .unwrap()
        .unwrap();
    match client_reader.process_frame(frame).unwrap() {
        ReadEvent::SendPong(p) => assert_eq!(p, b"hello".to_vec()),
        _ => panic!("expected a pong request"),
    }

    // The client's Pong goes out masked and carries "hello".
    let mut cw = client_writer(plain_config());
    let pong_bytes = cw.send_pong(b"hello".to_vec()).remove(0);
    assert_eq!(pong_bytes[1] & 0x80, 0x80);
    let (pong, _) = read_frame(&pong_bytes, &WriterKind::Server, &config)
        .unwrap()
        .unwrap();
    assert_eq!(pong.opcode, OpCode::Pong);
    assert_eq!(pong.payload, b"hello".to_vec());
}

#[test]
fn orphan_continuation_fails() {
    let mut reader = ReadStream::new(plain_config(), Decoder::new(false, None));
    let frame = Frame::new(true, OpCode::Continue, vec![1, 2, 3], false);
    let err = reader.process_frame(frame).unwrap_err();
    assert_eq!(err, Error::InvalidContinuationFrame);

    // The session then closes with status 1002 (protocol error).
    let code = close_code_for_error(&err);
    assert_eq!(code, 1002);
    let mut writer = server_writer(plain_config());
    let close = writer.close_with_status(code, Vec::new()).unwrap();
    assert_eq!(close, vec![0x88, 0x02, 0x03, 0xEA]);
    // Closing is idempotent: the second call emits nothing.
    assert!(writer.close_with_status(code, Vec::new()).is_none());
}

#[test]
fn close_codes_follow_the_error_kind() {
    assert_eq!(close_code_for_error(&Error::InvalidUtf8), 1007);
    assert_eq!(close_code_for_error(&Error::MaxMessageSize), 1009);
    assert_eq!(close_code_for_error(&Error::MaskingViolation), 1002);
    assert_eq!(close_code_for_error(&Error::CompressionError), 1011);
}

#[test]
fn data_frame_during_fragmentation_fails() {
    let mut reader = ReadStream::new(plain_config(), Decoder::new(false, None));
    let start = Frame::new(false, OpCode::Binary, vec![1], false);
    assert!(matches!(
        reader.process_frame(start).unwrap(),
        ReadEvent::Nothing
    ));
    let interloper = Frame::new(true, OpCode::Text, vec![2], false);
    assert_eq!(
        reader.process_frame(interloper).unwrap_err(),
        Error::InvalidFrameFragmentation
    );
}

#[test]
fn message_size_cap_is_exact() {
    // A message exactly at the cap goes through; one byte more fails.
    let mut config = WebSocketConfig::default();
    config.max_message_size = Some(16);
    let mut writer = server_writer(config.clone());
    assert!(writer.send_as_binary(vec![0u8; 16]).is_ok());
    assert_eq!(
        writer.send_as_binary(vec![0u8; 17]).unwrap_err(),
        Error::MaxMessageSize
    );
}

#[test]
fn reassembly_respects_message_cap() {
    let mut config = WebSocketConfig::default();
    config.max_message_size = Some(5);
    let mut reader = ReadStream::new(config, Decoder::new(false, None));
    let start = Frame::new(false, OpCode::Binary, vec![1, 2, 3], false);
    assert!(matches!(
        reader.process_frame(start).unwrap(),
        ReadEvent::Nothing
    ));
    let too_much = Frame::new(true, OpCode::Continue, vec![4, 5, 6], false);
    assert_eq!(
        reader.process_frame(too_much).unwrap_err(),
        Error::MaxMessageSize
    );
}

#[test]
fn oversized_frame_is_rejected() {
    let mut config = WebSocketConfig::default();
    config.max_frame_size = Some(4);
    let bytes = write_frame_server(&Frame::new(true, OpCode::Binary, vec![0u8; 5], false), false);
    assert_eq!(
        read_frame(&bytes, &WriterKind::Client, &config).unwrap_err(),
        Error::MaxFrameSize
    );
}

#[test]
fn fragment_size_above_frame_cap_is_rejected() {
    let mut config = WebSocketConfig::default();
    config.max_frame_size = Some(1024);
    let mut writer = server_writer(config);
    assert_eq!(
        writer
            .send_large_data_fragmented(vec![0u8; 10], 2048)
            .unwrap_err(),
        Error::CustomFragmentSizeExceeded(2048, 1024)
    );
}

#[test]
fn invalid_utf8_text_is_rejected() {
    let mut reader = ReadStream::new(plain_config(), Decoder::new(false, None));
    let bad = Frame::new(true, OpCode::Text, vec![0xff, 0xfe], false);
    assert_eq!(reader.process_frame(bad).unwrap_err(), Error::InvalidUtf8);

    let msg = Message::Binary(vec![0xff, 0xfe]);
    assert_eq!(msg.as_text().unwrap_err(), Error::InvalidUtf8);
    assert_eq!(
        Message::Binary(b"ok".to_vec()).as_text().unwrap(),
        "ok".to_string()
    );
}

#[test]
fn send_rejects_invalid_utf8() {
    let mut writer = server_writer(plain_config());
    assert_eq!(
        writer.send(vec![0xff, 0xfe]).unwrap_err(),
        Error::InvalidUtf8
    );
    assert!(writer.send(b"fine".to_vec()).is_ok());
}

#[test]
fn reserved_and_unknown_bits_fail() {
    let config = plain_config();
    // RSV2 set.
    let bytes = vec![0b1010_0001u8, 0x00];
    assert_eq!(
        read_frame(&bytes, &WriterKind::Client, &config).unwrap_err(),
        Error::RSVNotZero
    );
    // RSV1 set without negotiated compression.
    let bytes = vec![0b1100_0001u8, 0x00];
    assert_eq!(
        read_frame(&bytes, &WriterKind::Client, &config).unwrap_err(),
        Error::RSVNotZero
    );
    // Unknown opcode 0x3.
    let bytes = vec![0b1000_0011u8, 0x00];
    assert_eq!(
        read_frame(&bytes, &WriterKind::Client, &config).unwrap_err(),
        Error::InvalidOpcode
    );
    // Fragmented control frame.
    let bytes = vec![0b0000_1001u8, 0x00];
    assert_eq!(
        read_frame(&bytes, &WriterKind::Client, &config).unwrap_err(),
        Error::ControlFramesFragmented
    );
    // Control frame with an extended-length marker.
    let bytes = vec![0b1000_1001u8, 126, 0, 200];
    assert_eq!(
        read_frame(&bytes, &WriterKind::Client, &config).unwrap_err(),
        Error::ControlFramePayloadSize
    );
}

#[test]
fn incomplete_frames_ask_for_more() {
    let config = plain_config();
    assert!(read_frame(&vec![0x81], &WriterKind::Client, &config)
        .unwrap()
        .is_none());
    // Header promises 5 payload bytes; only 2 are there.
    let bytes = vec![0x81u8, 5, 1, 2];
    assert!(read_frame(&bytes, &WriterKind::Client, &config)
        .unwrap()
        .is_none());
}
