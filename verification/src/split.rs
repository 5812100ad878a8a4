//! The message-level writer: compressing, fragmenting and serializing
//! outbound messages, answering pings, and the orderly close.  Every
//! function hands back the wire bytes, one vector per frame, for the
//! surrounding runtime to write in order.

use vstd::prelude::*;
use vstd::utf8::{encode_utf8, valid_utf8};
use crate::bytetext::subvec;
use crate::compression::Encoder;
use crate::config::{
    spec_deflate_enabled, spec_frame_size_limit, spec_message_size_limit, WebSocketConfig,
};
use crate::error::Error;
use crate::frame::{Frame, OpCode};
use crate::message::{spec_message_bytes, string_from_utf8, Message};
use crate::write::{
    spec_frame_bytes_client, spec_frame_bytes_server, spec_wire_frame_matches, Writer, WriterKind,
};

verus! {

/// Payloads of at most this many bytes are never compressed.
pub const PAYLOAD_SIZE_COMPRESSION_ENABLE: usize = 1;

/// The payloads of a frame list, concatenated in order.
pub open spec fn spec_concat_payloads(frames: Seq<Frame>) -> Seq<u8>
    decreases frames.len(),
{
    if frames.len() == 0 {
        Seq::<u8>::empty()
    } else {
        spec_concat_payloads(frames.drop_last()) + frames.last().payload@
    }
}

/// The shape every outbound data-frame list has: at least one frame, the
/// message opcode on the first and `Continue` on the rest, the final bit
/// on the last frame alone, and RSV1 (the `compressed` flag) nowhere but
/// possibly the first frame.  In particular no frame is a control frame,
/// so a control opcode never stands on a non-final frame.
pub open spec fn spec_data_frame_shape(frames: Seq<Frame>, opcode: OpCode, compressed: bool) -> bool {
    &&& frames.len() >= 1
    &&& frames[0].opcode == opcode
    &&& forall|i: int| 1 <= i < frames.len() ==> #[trigger] frames[i].opcode == OpCode::Continue
    &&& forall|i: int|
        0 <= i < frames.len() ==> (#[trigger] frames[i].final_fragment <==> i == frames.len() - 1)
    &&& frames[0].compressed == compressed
    &&& forall|i: int| 1 <= i < frames.len() ==> #[trigger] frames[i].compressed == false
}

/// What one successful message send puts on the wire: a frame list of
/// the data-frame shape for the message's opcode, compressed only when
/// negotiated and longer than the threshold, concatenating back to the
/// message bytes when no compression step intervened — and, in order,
/// one byte vector per frame encoding that frame for this side, RSV1 on
/// the first frame alone.
pub open spec fn spec_sent_message(
    kind: WriterKind,
    frames: Seq<Frame>,
    out: Seq<Vec<u8>>,
    op: OpCode,
    bytes: Seq<u8>,
    deflate: bool,
) -> bool {
    &&& out.len() == frames.len()
    &&& forall|k: int| #![trigger out[k]]
        0 <= k < out.len() ==> spec_wire_frame_matches(
            kind,
            frames[k].final_fragment,
            k == 0 && frames[0].compressed,
            frames[k].opcode,
            frames[k].payload@,
            out[k]@,
        )
    &&& frames.len() >= 1
    &&& spec_data_frame_shape(frames, op, frames[0].compressed)
    &&& (frames[0].compressed ==> deflate && bytes.len() > PAYLOAD_SIZE_COMPRESSION_ENABLE)
    &&& (!frames[0].compressed ==> spec_concat_payloads(frames) == bytes)
}

/// What one successful fragmented send puts on the wire: Binary data
/// frames of exactly `chunk` payload bytes each but the last, nothing at
/// all for empty data, concatenating back to the data when no
/// compression step intervened, each frame encoded for this side in
/// order.
pub open spec fn spec_fragmented_sent(
    kind: WriterKind,
    frames: Seq<Frame>,
    out: Seq<Vec<u8>>,
    bytes: Seq<u8>,
    chunk: usize,
    deflate: bool,
) -> bool {
    &&& out.len() == frames.len()
    &&& forall|k: int| #![trigger out[k]]
        0 <= k < out.len() ==> spec_wire_frame_matches(
            kind,
            frames[k].final_fragment,
            k == 0 && frames[0].compressed,
            frames[k].opcode,
            frames[k].payload@,
            out[k]@,
        )
    &&& (bytes.len() == 0 ==> frames.len() == 0)
    &&& (frames.len() > 0 ==> spec_data_frame_shape(frames, OpCode::Binary, frames[0].compressed))
    &&& (frames.len() > 0 && frames[0].compressed ==> deflate && bytes.len()
        > PAYLOAD_SIZE_COMPRESSION_ENABLE)
    &&& ((frames.len() == 0 || !frames[0].compressed) ==> spec_concat_payloads(frames) == bytes)
    &&& forall|k: int| 0 <= k < frames.len() ==> #[trigger] frames[k].payload@.len() <= chunk
    &&& forall|k: int| 0 <= k < frames.len() - 1 ==> #[trigger] frames[k].payload@.len() == chunk
}

/// Split a payload into data frames of at most `chunk` bytes: the first
/// carries the message opcode and the compressed flag, every later one
/// is a continuation, and only the last is final.  The frame payloads
/// concatenate back to the payload.  An empty payload yields no frames.
fn chunk_frames(payload: Vec<u8>, opcode: OpCode, compressed: bool, chunk: usize) -> (r: Vec<
    Frame,
>)
    requires
        chunk > 0,
    ensures
        payload@.len() == 0 ==> r@.len() == 0,
        payload@.len() > 0 ==> spec_data_frame_shape(r@, opcode, compressed),
        spec_concat_payloads(r@) == payload@,
        forall|i: int| 0 <= i < r@.len() ==> #[trigger] r@[i].payload@.len() <= chunk,
        forall|i: int| 0 <= i < r@.len() - 1 ==> #[trigger] r@[i].payload@.len() == chunk,
{
    let mut frames: Vec<Frame> = Vec::new();
    let mut i: usize = 0;
    let len = payload.len();
    proof {
        assert(payload@.subrange(0, 0) =~= Seq::<u8>::empty());
    }
    while i < len
        invariant
            chunk > 0,
            i <= len,
            len == payload@.len(),
            spec_concat_payloads(frames@) == payload@.subrange(0, i as int),
            i > 0 ==> frames@.len() >= 1 && frames@[0].opcode == opcode && frames@[0].compressed
                == compressed,
            i == 0 ==> frames@.len() == 0,
            forall|k: int| 1 <= k < frames@.len() ==> #[trigger] frames@[k].opcode
                == OpCode::Continue,
            forall|k: int| 1 <= k < frames@.len() ==> #[trigger] frames@[k].compressed == false,
            forall|k: int|
                0 <= k < frames@.len() ==> (#[trigger] frames@[k].final_fragment <==> i >= len && k
                    == frames@.len() - 1),
            forall|k: int| 0 <= k < frames@.len() ==> #[trigger] frames@[k].payload@.len() <= chunk,
            forall|k: int|
                0 <= k < frames@.len() ==> (#[trigger] frames@[k].payload@.len() == chunk || (i
                    >= len && k == frames@.len() - 1)),
        decreases len - i,
    {
        let end = if len - i < chunk { len } else { i + chunk };
        let piece = subvec(&payload, i, end);
        let is_first = i == 0;
        let is_last = end == len;
        let op = if is_first { opcode } else { OpCode::Continue };
        let ghost before = frames@;
        frames.push(
            Frame {
                final_fragment: is_last,
                opcode: op,
                payload: piece,
                compressed: if is_first { compressed } else { false },
            },
        );
        proof {
            assert(frames@.drop_last() =~= before);
            assert(frames@[frames@.len() - 1].payload@.len() == end - i);
            assert(end - i <= chunk);
            assert forall|k: int| 0 <= k < frames@.len() implies #[trigger] frames@[k].payload@.len()
                <= chunk && (frames@[k].payload@.len() == chunk || (end >= len && k == frames@.len()
                - 1)) by {
                if k == frames@.len() - 1 {
                    assert(frames@[k].payload@.len() == end - i);
                } else {
                    assert(frames@[k] == before[k]);
                    assert(before[k].payload@.len() <= chunk);
                    assert(before[k].payload@.len() == chunk || (i >= len && k == before.len()
                        - 1));
                }
            }
            assert(payload@.subrange(0, i as int) + payload@.subrange(i as int, end as int)
                =~= payload@.subrange(0, end as int));
        }
        i = end;
    }
    proof {
        assert(payload@.subrange(0, len as int) =~= payload@);
    }
    frames
}

/// The message-level writer: owns the frame serializer for its side, the
/// session configuration, the outbound compression context, and the
/// close state.
pub struct WSWriter {
    /// The frame serializer (which side we write for).
    pub writer: Writer,
    /// Session limits and negotiated extensions.
    pub web_socket_config: WebSocketConfig,
    /// The outbound deflate context.
    pub encoder: Encoder,
    /// Whether a Close frame has already been issued by this writer.
    pub closed: bool,
}

impl WSWriter {
    /// A writer that has not yet closed.
    pub fn new(writer: Writer, web_socket_config: WebSocketConfig, encoder: Encoder) -> (r: Self)
        ensures
            r.writer == writer,
            r.web_socket_config == web_socket_config,
            r.closed == false,
    {
        Self { writer, web_socket_config, encoder, closed: false }
    }

    /// Compress the payload in place when compression is negotiated and
    /// the payload is longer than the no-compression threshold; say
    /// whether that happened.  An untouched payload comes back unchanged.
    pub fn check_compression(&mut self, data: &mut Vec<u8>) -> (r: Result<bool, Error>)
        ensures
            final(self).web_socket_config == old(self).web_socket_config,
            final(self).writer == old(self).writer,
            final(self).closed == old(self).closed,
            r is Ok ==> r->Ok_0 == (spec_deflate_enabled(old(self).web_socket_config) && old(
                data,
            )@.len() > PAYLOAD_SIZE_COMPRESSION_ENABLE),
            r is Ok && !r->Ok_0 ==> final(data)@ == old(data)@,
            !spec_deflate_enabled(old(self).web_socket_config) || old(data)@.len()
                <= PAYLOAD_SIZE_COMPRESSION_ENABLE ==> r is Ok,
            r is Err ==> r->Err_0 == Error::CompressionError,
    {
        let mut compressed = false;
        if self.web_socket_config.deflate_enabled() && data.len()
            > PAYLOAD_SIZE_COMPRESSION_ENABLE {
            let out = match self.encoder.compress(data) {
                Ok(out) => out,
                Err(_) => {
                    return Err(Error::CompressionError);
                },
            };
            *data = out;
            compressed = true;
        }
        Ok(compressed)
    }

    /// Turn one message into its data frames: nothing for the empty
    /// message but a single empty final frame, otherwise compression
    /// when negotiated, then a split into frames of at most the frame
    /// cap.  When no compression takes place, the frame payloads
    /// concatenate back to the message bytes.
    pub fn convert_to_frames(&mut self, message: Message) -> (r: Result<Vec<Frame>, Error>)
        ensures
            final(self).web_socket_config == old(self).web_socket_config,
            final(self).writer == old(self).writer,
            final(self).closed == old(self).closed,
            spec_frame_size_limit(old(self).web_socket_config) == 0 && spec_message_bytes(
                message,
            ).len() > 0 ==> r == Err::<Vec<Frame>, Error>(Error::MaxFrameSize),
            r is Err ==> (r->Err_0 == Error::MaxFrameSize || r->Err_0
                == Error::CompressionError),
            !spec_deflate_enabled(old(self).web_socket_config) && (spec_message_bytes(
                message,
            ).len() == 0 || spec_frame_size_limit(old(self).web_socket_config) > 0) ==> r is Ok,
            r is Ok ==> {
                let frames = r->Ok_0@;
                &&& frames.len() >= 1
                &&& (spec_message_bytes(message).len() == 0 ==> frames.len() == 1
                    && frames[0].final_fragment && frames[0].opcode == spec_message_opcode(message)
                    && frames[0].payload@ =~= Seq::<u8>::empty() && !frames[0].compressed)
                &&& (spec_message_bytes(message).len() > 0 ==> spec_data_frame_shape(frames,
                    spec_message_opcode(message), frames[0].compressed))
                &&& (frames[0].compressed ==> spec_deflate_enabled(old(self).web_socket_config)
                    && spec_message_bytes(message).len() > PAYLOAD_SIZE_COMPRESSION_ENABLE)
                &&& (!frames[0].compressed ==> spec_concat_payloads(frames) == spec_message_bytes(
                    message,
                ))
                &&& (spec_message_bytes(message).len() > PAYLOAD_SIZE_COMPRESSION_ENABLE
                    && spec_deflate_enabled(old(self).web_socket_config) ==> frames[0].compressed)
            },
    {
        let opcode = match &message {
            Message::Text(_) => OpCode::Text,
            Message::Binary(_) => OpCode::Binary,
        };
        let mut payload = message.as_binary();
        if payload.len() == 0 {
            let frame = Frame { final_fragment: true, opcode, payload, compressed: false };
            let mut frames: Vec<Frame> = Vec::new();
            frames.push(frame);
            proof {
                assert(spec_concat_payloads(frames@.drop_last()) =~= Seq::<u8>::empty());
                assert(spec_concat_payloads(frames@) =~= spec_message_bytes(message));
            }
            return Ok(frames);
        }
        let max_frame_size = self.web_socket_config.frame_size_limit();
        if max_frame_size == 0 {
            return Err(Error::MaxFrameSize);
        }
        let compressed = self.check_compression(&mut payload)?;
        let frames = chunk_frames(payload, opcode, compressed, max_frame_size);
        if frames.len() == 0 {
            // Compression never shrinks a non-empty payload to nothing:
            // a sync-flushed deflate block is at least a few bytes.  If
            // it ever did, refuse rather than emit nothing.
            return Err(Error::CompressionError);
        }
        Ok(frames)
    }

    /// Serialize a frame list in order, one byte vector per frame; RSV1
    /// goes out on the first frame exactly when that frame belongs to a
    /// compressed message.  Servers write each frame unmasked, clients
    /// masked under a fresh mask per frame.
    pub fn write_frames(&mut self, frames: Vec<Frame>) -> (r: Vec<Vec<u8>>)
        ensures
            *final(self) == *old(self),
            r@.len() == frames@.len(),
            forall|k: int| #![trigger r@[k]]
                0 <= k < r@.len() ==> spec_wire_frame_matches(
                    old(self).writer.kind,
                    frames@[k].final_fragment,
                    k == 0 && frames@[0].compressed,
                    frames@[k].opcode,
                    frames@[k].payload@,
                    r@[k]@,
                ),
    {
        let mut out: Vec<Vec<u8>> = Vec::new();
        let mut k: usize = 0;
        while k < frames.len()
            invariant
                k <= frames@.len(),
                out@.len() == k,
                self == old(self),
                forall|j: int| #![trigger out@[j]]
                    0 <= j < k ==> spec_wire_frame_matches(
                        old(self).writer.kind,
                        frames@[j].final_fragment,
                        j == 0 && frames@[0].compressed,
                        frames@[j].opcode,
                        frames@[j].payload@,
                        out@[j]@,
                    ),
            decreases frames@.len() - k,
        {
            let set_rsv1 = k == 0 && frames[0].compressed;
            let bytes = self.writer.write_frame(&frames[k], set_rsv1);
            out.push(bytes);
            k = k + 1;
        }
        out
    }

    /// Serialize one whole message: refused with `MaxMessageSize` exactly
    /// when the message is larger than the message cap; otherwise
    /// compressed, fragmented and serialized.  Without negotiated
    /// compression the call succeeds whenever the frame cap is positive.
    pub fn write_message(&mut self, message: Message) -> (r: Result<Vec<Vec<u8>>, Error>)
        ensures
            final(self).web_socket_config == old(self).web_socket_config,
            final(self).writer == old(self).writer,
            final(self).closed == old(self).closed,
            spec_message_bytes(message).len() > spec_message_size_limit(
                old(self).web_socket_config,
            ) <==> r == Err::<Vec<Vec<u8>>, Error>(Error::MaxMessageSize),
            spec_message_bytes(message).len() <= spec_message_size_limit(
                old(self).web_socket_config,
            ) && !spec_deflate_enabled(old(self).web_socket_config) && spec_frame_size_limit(
                old(self).web_socket_config,
            ) > 0 ==> r is Ok,
            r is Err ==> (r->Err_0 == Error::MaxMessageSize || r->Err_0 == Error::MaxFrameSize
                || r->Err_0 == Error::CompressionError),
            r is Ok ==> exists|frames: Seq<Frame>|
                #[trigger] spec_sent_message(
                    old(self).writer.kind,
                    frames,
                    r->Ok_0@,
                    spec_message_opcode(message),
                    spec_message_bytes(message),
                    spec_deflate_enabled(old(self).web_socket_config),
                ),
    {
        let size = message.as_binary();
        if size.len() > self.web_socket_config.message_size_limit() {
            return Err(Error::MaxMessageSize);
        }
        let ghost m = message;
        let frames = self.convert_to_frames(message)?;
        let ghost fseq = frames@;
        let out = self.write_frames(frames);
        let result: Result<Vec<Vec<u8>>, Error> = Ok(out);
        proof {
            assert(spec_sent_message(old(self).writer.kind, fseq, result->Ok_0@,
                spec_message_opcode(m), spec_message_bytes(m), spec_deflate_enabled(
                old(self).web_socket_config)));
        }
        result
    }

    /// Send a message: the general entry point for one Text or Binary
    /// message.
    pub fn send_message(&mut self, message: Message) -> (r: Result<Vec<Vec<u8>>, Error>)
        ensures
            final(self).web_socket_config == old(self).web_socket_config,
            final(self).writer == old(self).writer,
            final(self).closed == old(self).closed,
            spec_message_bytes(message).len() > spec_message_size_limit(
                old(self).web_socket_config,
            ) <==> r == Err::<Vec<Vec<u8>>, Error>(Error::MaxMessageSize),
            r is Err ==> (r->Err_0 == Error::MaxMessageSize || r->Err_0 == Error::MaxFrameSize
                || r->Err_0 == Error::CompressionError),
            r is Ok ==> exists|frames: Seq<Frame>|
                #[trigger] spec_sent_message(
                    old(self).writer.kind,
                    frames,
                    r->Ok_0@,
                    spec_message_opcode(message),
                    spec_message_bytes(message),
                    spec_deflate_enabled(old(self).web_socket_config),
                ),
    {
        let result = self.write_message(message);
        proof {
            if result is Ok {
                let deflate = spec_deflate_enabled(old(self).web_socket_config);
                let fr = choose|frames: Seq<Frame>|
                    spec_sent_message(old(self).writer.kind, frames, result->Ok_0@,
                        spec_message_opcode(message), spec_message_bytes(message), deflate);
                assert(spec_sent_message(old(self).writer.kind, fr, result->Ok_0@,
                    spec_message_opcode(message), spec_message_bytes(message), deflate));
            }
        }
        result
    }

    /// Send bytes as a Text message: the bytes must be valid UTF-8, and
    /// are refused with `InvalidUtf8` otherwise.
    pub fn send(&mut self, data: Vec<u8>) -> (r: Result<Vec<Vec<u8>>, Error>)
        ensures
            final(self).web_socket_config == old(self).web_socket_config,
            final(self).writer == old(self).writer,
            final(self).closed == old(self).closed,
            !valid_utf8(data@) ==> r == Err::<Vec<Vec<u8>>, Error>(Error::InvalidUtf8),
            valid_utf8(data@) ==> (data@.len() > spec_message_size_limit(
                old(self).web_socket_config,
            ) <==> r == Err::<Vec<Vec<u8>>, Error>(Error::MaxMessageSize)),
            r is Err ==> (r->Err_0 == Error::InvalidUtf8 || r->Err_0 == Error::MaxMessageSize
                || r->Err_0 == Error::MaxFrameSize || r->Err_0 == Error::CompressionError),
            r is Ok ==> exists|frames: Seq<Frame>|
                #[trigger] spec_sent_message(
                    old(self).writer.kind,
                    frames,
                    r->Ok_0@,
                    OpCode::Text,
                    data@,
                    spec_deflate_enabled(old(self).web_socket_config),
                ),
    {
        let text = string_from_utf8(data)?;
        let result = self.write_message(Message::Text(text));
        proof {
            if result is Ok {
                let deflate = spec_deflate_enabled(old(self).web_socket_config);
                let fr = choose|frames: Seq<Frame>|
                    spec_sent_message(old(self).writer.kind, frames, result->Ok_0@,
                        spec_message_opcode(Message::Text(text)), spec_message_bytes(
                        Message::Text(text)), deflate);
                assert(spec_message_bytes(Message::Text(text)) == data@);
                assert(spec_sent_message(old(self).writer.kind, fr, result->Ok_0@, OpCode::Text,
                    data@, deflate));
            }
        }
        result
    }

    /// Send bytes as a Binary message.
    pub fn send_as_binary(&mut self, data: Vec<u8>) -> (r: Result<Vec<Vec<u8>>, Error>)
        ensures
            final(self).web_socket_config == old(self).web_socket_config,
            final(self).writer == old(self).writer,
            final(self).closed == old(self).closed,
            data@.len() > spec_message_size_limit(old(self).web_socket_config) <==> r == Err::<
                Vec<Vec<u8>>,
                Error,
            >(Error::MaxMessageSize),
            r is Err ==> (r->Err_0 == Error::MaxMessageSize || r->Err_0 == Error::MaxFrameSize
                || r->Err_0 == Error::CompressionError),
            r is Ok ==> exists|frames: Seq<Frame>|
                #[trigger] spec_sent_message(
                    old(self).writer.kind,
                    frames,
                    r->Ok_0@,
                    OpCode::Binary,
                    data@,
                    spec_deflate_enabled(old(self).web_socket_config),
                ),
    {
        let result = self.write_message(Message::Binary(data));
        proof {
            if result is Ok {
                let deflate = spec_deflate_enabled(old(self).web_socket_config);
                let fr = choose|frames: Seq<Frame>|
                    spec_sent_message(old(self).writer.kind, frames, result->Ok_0@,
                        spec_message_opcode(Message::Binary(data)), spec_message_bytes(
                        Message::Binary(data)), deflate);
                assert(spec_sent_message(old(self).writer.kind, fr, result->Ok_0@,
                    OpCode::Binary, data@, deflate));
            }
        }
        result
    }

    /// Send a string as a Text message.
    pub fn send_as_text(&mut self, data: String) -> (r: Result<Vec<Vec<u8>>, Error>)
        ensures
            final(self).web_socket_config == old(self).web_socket_config,
            final(self).writer == old(self).writer,
            final(self).closed == old(self).closed,
            encode_utf8(data@).len() > spec_message_size_limit(old(self).web_socket_config) <==> r
                == Err::<Vec<Vec<u8>>, Error>(Error::MaxMessageSize),
            r is Err ==> (r->Err_0 == Error::MaxMessageSize || r->Err_0 == Error::MaxFrameSize
                || r->Err_0 == Error::CompressionError),
            r is Ok ==> exists|frames: Seq<Frame>|
                #[trigger] spec_sent_message(
                    old(self).writer.kind,
                    frames,
                    r->Ok_0@,
                    OpCode::Text,
                    encode_utf8(data@),
                    spec_deflate_enabled(old(self).web_socket_config),
                ),
    {
        let result = self.write_message(Message::Text(data));
        proof {
            if result is Ok {
                let deflate = spec_deflate_enabled(old(self).web_socket_config);
                let fr = choose|frames: Seq<Frame>|
                    spec_sent_message(old(self).writer.kind, frames, result->Ok_0@,
                        spec_message_opcode(Message::Text(data)), spec_message_bytes(
                        Message::Text(data)), deflate);
                assert(spec_sent_message(old(self).writer.kind, fr, result->Ok_0@, OpCode::Text,
                    encode_utf8(data@), deflate));
            }
        }
        result
    }

    /// Serialize one Ping frame with an empty payload: a single final
    /// control frame, never fragmented and never compressed.
    pub fn send_ping(&mut self) -> (r: Vec<Vec<u8>>)
        ensures
            *final(self) == *old(self),
            r@.len() == 1,
            old(self).writer.kind is Server ==> r@[0]@ == spec_frame_bytes_server(true, false,
                OpCode::Ping, Seq::<u8>::empty()),
            old(self).writer.kind is Client ==> exists|m: Seq<u8>|
                m.len() == 4 && r@[0]@ == spec_frame_bytes_client(true, false, OpCode::Ping,
                    Seq::<u8>::empty(), m),
    {
        let frame = Frame {
            final_fragment: true,
            opcode: OpCode::Ping,
            payload: Vec::new(),
            compressed: false,
        };
        let bytes = self.writer.write_frame(&frame, false);
        let mut out: Vec<Vec<u8>> = Vec::new();
        out.push(bytes);
        out
    }

    /// Serialize one Pong frame answering a Ping, with the identical
    /// payload the Ping carried.
    pub fn send_pong(&mut self, payload: Vec<u8>) -> (r: Vec<Vec<u8>>)
        ensures
            *final(self) == *old(self),
            r@.len() == 1,
            old(self).writer.kind is Server ==> r@[0]@ == spec_frame_bytes_server(true, false,
                OpCode::Pong, payload@),
            old(self).writer.kind is Client ==> exists|m: Seq<u8>|
                m.len() == 4 && r@[0]@ == spec_frame_bytes_client(true, false, OpCode::Pong,
                    payload@, m),
    {
        let frame = Frame {
            final_fragment: true,
            opcode: OpCode::Pong,
            payload,
            compressed: false,
        };
        let bytes = self.writer.write_frame(&frame, false);
        let mut out: Vec<Vec<u8>> = Vec::new();
        out.push(bytes);
        out
    }

    /// Split a large payload into Binary data frames of `fragment_size`
    /// bytes each (the last one shorter), compressing first when
    /// negotiated.  The fragment size must fit under the frame cap and
    /// the payload under the message cap.
    pub fn send_large_data_fragmented(&mut self, data: Vec<u8>, fragment_size: usize) -> (r:
        Result<Vec<Vec<u8>>, Error>)
        requires
            fragment_size > 0,
        ensures
            final(self).web_socket_config == old(self).web_socket_config,
            final(self).writer == old(self).writer,
            final(self).closed == old(self).closed,
            fragment_size > spec_frame_size_limit(old(self).web_socket_config) <==> r == Err::<
                Vec<Vec<u8>>,
                Error,
            >(Error::CustomFragmentSizeExceeded(
                fragment_size,
                spec_frame_size_limit(old(self).web_socket_config),
            )),
            fragment_size <= spec_frame_size_limit(old(self).web_socket_config) ==> (data@.len()
                > spec_message_size_limit(old(self).web_socket_config) <==> r == Err::<
                Vec<Vec<u8>>,
                Error,
            >(Error::MaxMessageSize)),
            fragment_size <= spec_frame_size_limit(old(self).web_socket_config) && data@.len()
                <= spec_message_size_limit(old(self).web_socket_config) && !spec_deflate_enabled(
                old(self).web_socket_config,
            ) ==> r is Ok,
            r is Err ==> (r->Err_0 == Error::CustomFragmentSizeExceeded(
                fragment_size,
                spec_frame_size_limit(old(self).web_socket_config),
            ) || r->Err_0 == Error::MaxMessageSize || r->Err_0 == Error::CompressionError),
            r is Ok ==> exists|frames: Seq<Frame>|
                #[trigger] spec_fragmented_sent(
                    old(self).writer.kind,
                    frames,
                    r->Ok_0@,
                    data@,
                    fragment_size,
                    spec_deflate_enabled(old(self).web_socket_config),
                ),
    {
        let limit = self.web_socket_config.frame_size_limit();
        if fragment_size > limit {
            return Err(Error::CustomFragmentSizeExceeded(fragment_size, limit));
        }
        if data.len() > self.web_socket_config.message_size_limit() {
            return Err(Error::MaxMessageSize);
        }
        let ghost d0 = data@;
        let mut payload = data;
        let compressed = self.check_compression(&mut payload)?;
        if compressed && payload.len() == 0 {
            // Compression never shrinks a non-empty payload to nothing:
            // a sync-flushed deflate block is at least a few bytes.  If
            // it ever did, refuse rather than emit nothing.
            return Err(Error::CompressionError);
        }
        let frames = chunk_frames(payload, OpCode::Binary, compressed, fragment_size);
        let ghost fseq = frames@;
        let out = self.write_frames(frames);
        let result: Result<Vec<Vec<u8>>, Error> = Ok(out);
        proof {
            assert(spec_fragmented_sent(old(self).writer.kind, fseq, result->Ok_0@, d0,
                fragment_size, spec_deflate_enabled(old(self).web_socket_config)));
        }
        result
    }

    /// Issue the orderly close: the first call serializes one Close
    /// frame and marks the writer closed; every later call is a no-op
    /// that performs no further output.  The surrounding runtime writes
    /// the bytes, waits out the close grace period, and drops the
    /// duplex.
    pub fn close_connection(&mut self) -> (r: Option<Vec<u8>>)
        ensures
            final(self).web_socket_config == old(self).web_socket_config,
            final(self).writer == old(self).writer,
            final(self).closed == true,
            old(self).closed ==> r is None,
            !old(self).closed ==> r is Some && {
                &&& old(self).writer.kind is Server ==> r->0@ == spec_frame_bytes_server(true,
                    false, OpCode::Close, Seq::<u8>::empty())
                &&& old(self).writer.kind is Client ==> exists|m: Seq<u8>|
                    m.len() == 4 && r->0@ == spec_frame_bytes_client(true, false, OpCode::Close,
                        Seq::<u8>::empty(), m)
            },
    {
        if self.closed {
            return None;
        }
        self.closed = true;
        let frame = Frame {
            final_fragment: true,
            opcode: OpCode::Close,
            payload: Vec::new(),
            compressed: false,
        };
        Some(self.writer.write_frame(&frame, false))
    }

    /// Issue the orderly close with a status code and a short reason in
    /// the Close payload; like `close_connection`, only the first call
    /// emits anything.
    pub fn close_with_status(&mut self, code: u16, reason: Vec<u8>) -> (r: Option<Vec<u8>>)
        requires
            reason@.len() <= 123,
        ensures
            final(self).web_socket_config == old(self).web_socket_config,
            final(self).writer == old(self).writer,
            final(self).closed == true,
            old(self).closed ==> r is None,
            !old(self).closed ==> r is Some && {
                &&& old(self).writer.kind is Server ==> r->0@ == spec_frame_bytes_server(true,
                    false, OpCode::Close, spec_close_payload(code, reason@))
                &&& old(self).writer.kind is Client ==> exists|m: Seq<u8>|
                    m.len() == 4 && r->0@ == spec_frame_bytes_client(true, false, OpCode::Close,
                        spec_close_payload(code, reason@), m)
            },
    {
        if self.closed {
            return None;
        }
        self.closed = true;
        let frame = status_close_frame(code, reason);
        Some(self.writer.write_frame(&frame, false))
    }
}

/// The close status code the engine uses for an error, as the
/// propagation policy assigns them: protocol violations close with 1002,
/// invalid payload data with 1007, an oversized message with 1009, and
/// everything else with 1011.
pub open spec fn spec_close_code_for_error(e: Error) -> u16 {
    match e {
        Error::RSVNotZero => 1002,
        Error::ControlFramesFragmented => 1002,
        Error::ControlFramePayloadSize => 1002,
        Error::MaskingViolation => 1002,
        Error::InvalidFrameFragmentation => 1002,
        Error::FragmentedInProgress => 1002,
        Error::InvalidContinuationFrame => 1002,
        Error::InvalidOpcode => 1002,
        Error::InvalidUtf8 => 1007,
        Error::MaxFrameSize => 1009,
        Error::MaxMessageSize => 1009,
        _ => 1011,
    }
}

/// The status code a reader-side error closes the connection with.
pub fn close_code_for_error(e: &Error) -> (r: u16)
    ensures
        r == spec_close_code_for_error(*e),
{
    match e {
        Error::RSVNotZero => 1002,
        Error::ControlFramesFragmented => 1002,
        Error::ControlFramePayloadSize => 1002,
        Error::MaskingViolation => 1002,
        Error::InvalidFrameFragmentation => 1002,
        Error::FragmentedInProgress => 1002,
        Error::InvalidContinuationFrame => 1002,
        Error::InvalidOpcode => 1002,
        Error::InvalidUtf8 => 1007,
        Error::MaxFrameSize => 1009,
        Error::MaxMessageSize => 1009,
        _ => 1011,
    }
}

/// The payload of a Close frame carrying a status code: the two
/// big-endian code bytes, then the reason bytes.
pub open spec fn spec_close_payload(code: u16, reason: Seq<u8>) -> Seq<u8> {
    seq![(code / 256) as u8, (code % 256) as u8] + reason
}

/// Build the Close frame for a status code and a short reason: a final,
/// uncompressed control frame whose payload is the two big-endian code
/// bytes followed by the reason, within the 125-byte control cap.
pub fn status_close_frame(code: u16, reason: Vec<u8>) -> (r: Frame)
    requires
        reason@.len() <= 123,
    ensures
        r.final_fragment,
        r.opcode == OpCode::Close,
        !r.compressed,
        r.payload@ == spec_close_payload(code, reason@),
        r.payload@.len() <= 125,
{
    let mut payload: Vec<u8> = Vec::new();
    payload.push((code / 256) as u8);
    payload.push((code % 256) as u8);
    let mut reason = reason;
    let ghost reason_bytes = reason@;
    payload.append(&mut reason);
    proof {
        assert(payload@ =~= spec_close_payload(code, reason_bytes));
    }
    Frame { final_fragment: true, opcode: OpCode::Close, payload, compressed: false }
}

/// The opcode a message goes out under.
pub open spec fn spec_message_opcode(m: Message) -> OpCode {
    match m {
        Message::Text(_) => OpCode::Text,
        Message::Binary(_) => OpCode::Binary,
    }
}

/// Closing is idempotent: one pass through the close step closes the
/// state, and a second pass, from a closed state, emits nothing.  The
/// step is the transition `close_connection` performs on its flag.
pub proof fn lemma_close_idempotent(closed: bool)
    ensures
        spec_close_step(spec_close_step(closed).0).1 is None,
        spec_close_step(closed).0 == true,
{
}

/// The close transition on the writer's flag: what the state becomes,
/// and whether a Close frame goes out.
pub open spec fn spec_close_step(closed: bool) -> (bool, Option<()>) {
    if closed {
        (true, None)
    } else {
        (true, Some(()))
    }
}

} // verus!
