//! Reading frames back from wire bytes: an incremental decoder over a
//! byte buffer, with every validation RFC 6455 asks for, and the proof
//! that decoding inverts the writer's encoding.

use vstd::prelude::*;
use vstd::utf8::valid_utf8;
use crate::compression::Decoder;
use crate::config::{
    spec_deflate_enabled, spec_frame_size_limit, spec_message_size_limit, WebSocketConfig,
};
use crate::error::Error;
use crate::message::{spec_message_bytes, Message};
use crate::frame::{
    is_valid_opcode_byte, lemma_mask_roundtrip, mask_seq, opcode_value, spec_is_control, Frame,
    OpCode,
};
use crate::write::{
    spec_be8, spec_first_byte, spec_frame_bytes_client, spec_frame_bytes_server, spec_len_field,
    WriterKind,
};

verus! {

/// What a decode attempt yields: more bytes are needed, the frame is
/// rejected, or one frame was parsed and `used` bytes consumed.
pub enum SpecDecoded {
    Incomplete,
    Fail(Error),
    Done { fin: bool, rsv1: bool, op: OpCode, payload: Seq<u8>, used: int },
}

/// The opcode a valid opcode number stands for.
pub open spec fn spec_opcode_of(v: u8) -> OpCode
    recommends
        is_valid_opcode_byte(v),
{
    if v == 0x0 {
        OpCode::Continue
    } else if v == 0x1 {
        OpCode::Text
    } else if v == 0x2 {
        OpCode::Binary
    } else if v == 0x8 {
        OpCode::Close
    } else if v == 0x9 {
        OpCode::Ping
    } else {
        OpCode::Pong
    }
}

/// The payload length the length field states: the 7-bit value itself, or
/// the two or eight big-endian bytes that follow the header.
pub open spec fn spec_ext_len(b: Seq<u8>, len7: u8) -> nat
    recommends
        len7 == 126 ==> b.len() >= 4,
        len7 == 127 ==> b.len() >= 10,
{
    if len7 == 126 {
        (b[2] * 256 + b[3]) as nat
    } else if len7 == 127 {
        (b[2] * 0x100000000000000 + b[3] * 0x1000000000000 + b[4] * 0x10000000000 + b[5]
            * 0x100000000 + b[6] * 0x1000000 + b[7] * 0x10000 + b[8] * 0x100 + b[9]) as nat
    } else {
        len7 as nat
    }
}

/// One step of frame decoding over a byte buffer, exactly as the reader
/// performs it: header bits, reserved-bit and opcode checks, the
/// control-frame rules, the three length encodings, the frame-size cap,
/// masking enforcement by role, and unmasking of the payload.
pub open spec fn spec_decode_frame(b: Seq<u8>, kind: WriterKind, max_frame: nat, deflate: bool) -> SpecDecoded {
    if b.len() < 2 {
        SpecDecoded::Incomplete
    } else {
        let b0 = b[0];
        let b1 = b[1];
        let fin = b0 / 128 == 1;
        let rsv1 = (b0 / 64) % 2 == 1;
        let rsv2 = (b0 / 32) % 2 == 1;
        let rsv3 = (b0 / 16) % 2 == 1;
        let opv = b0 % 16;
        if rsv2 || rsv3 || (rsv1 && !deflate) {
            SpecDecoded::Fail(Error::RSVNotZero)
        } else if !is_valid_opcode_byte(opv) {
            SpecDecoded::Fail(Error::InvalidOpcode)
        } else {
            let op = spec_opcode_of(opv);
            if !fin && spec_is_control(op) {
                SpecDecoded::Fail(Error::ControlFramesFragmented)
            } else {
                let masked = b1 / 128 == 1;
                let len7 = b1 % 128;
                if spec_is_control(op) && len7 > 125 {
                    SpecDecoded::Fail(Error::ControlFramePayloadSize)
                } else {
                    let hl = if len7 == 126 { 4int } else if len7 == 127 { 10int } else { 2int };
                    if b.len() < hl {
                        SpecDecoded::Incomplete
                    } else {
                        let plen = spec_ext_len(b, len7);
                        if plen > max_frame {
                            SpecDecoded::Fail(Error::MaxFrameSize)
                        } else if (kind is Server && !masked) || (kind is Client && masked) {
                            SpecDecoded::Fail(Error::MaskingViolation)
                        } else {
                            let off = hl + if masked { 4int } else { 0int };
                            if b.len() < off + plen {
                                SpecDecoded::Incomplete
                            } else {
                                let raw = b.subrange(off, off + plen);
                                let payload = if masked {
                                    mask_seq(raw, b.subrange(hl, hl + 4))
                                } else {
                                    raw
                                };
                                SpecDecoded::Done { fin, rsv1, op, payload, used: off + plen }
                            }
                        }
                    }
                }
            }
        }
    }
}

/// How the decoder's result reflects the spec-level outcome.
pub open spec fn decode_matches(d: SpecDecoded, r: Result<Option<(Frame, usize)>, Error>) -> bool {
    match d {
        SpecDecoded::Incomplete => r is Ok && r->Ok_0 is None,
        SpecDecoded::Fail(e) => r is Err && r->Err_0 == e,
        SpecDecoded::Done { fin, rsv1, op, payload, used } => r is Ok && r->Ok_0 is Some && {
            let fu = r->Ok_0->0;
            &&& fu.0.final_fragment == fin
            &&& fu.0.compressed == rsv1
            &&& fu.0.opcode == op
            &&& fu.0.payload@ == payload
            &&& fu.1 == used
        },
    }
}

/// Decode one frame from the front of `buffer`.  `Ok(None)` asks for more
/// bytes; `Ok(Some((frame, used)))` hands the frame over with the number
/// of buffer bytes it occupied; every rejection is the error the spec
/// function names.  A server rejects unmasked frames and a client
/// rejects masked ones, with `MaskingViolation`.
pub fn read_frame(buffer: &Vec<u8>, kind: &WriterKind, config: &WebSocketConfig) -> (r: Result<
    Option<(Frame, usize)>,
    Error,
>)
    ensures
        decode_matches(
            spec_decode_frame(buffer@, *kind, spec_frame_size_limit(*config) as nat,
                spec_deflate_enabled(*config)),
            r,
        ),
{
    let max_frame = config.frame_size_limit();
    let deflate = config.deflate_enabled();
    if buffer.len() < 2 {
        return Ok(None);
    }
    let b0 = buffer[0];
    let b1 = buffer[1];
    let final_fragment = b0 / 128 == 1;
    let rsv1 = (b0 / 64) % 2 == 1;
    let rsv2 = (b0 / 32) % 2 == 1;
    let rsv3 = (b0 / 16) % 2 == 1;
    let opv = b0 % 16;
    if rsv2 || rsv3 || (rsv1 && !deflate) {
        return Err(Error::RSVNotZero);
    }
    let opcode = match OpCode::from(opv) {
        Ok(op) => op,
        Err(e) => {
            return Err(e);
        },
    };
    proof {
        assert(opcode == spec_opcode_of(opv));
    }
    if !final_fragment && opcode.is_control() {
        return Err(Error::ControlFramesFragmented);
    }
    let masked = b1 / 128 == 1;
    let len7 = b1 % 128;
    if opcode.is_control() && len7 > 125 {
        return Err(Error::ControlFramePayloadSize);
    }
    let header_len: usize = if len7 == 126 { 4 } else if len7 == 127 { 10 } else { 2 };
    if buffer.len() < header_len {
        return Ok(None);
    }
    let payload_len: u64 = if len7 == 126 {
        (buffer[2] as u64) * 256 + (buffer[3] as u64)
    } else if len7 == 127 {
        (buffer[2] as u64) * 0x100000000000000 + (buffer[3] as u64) * 0x1000000000000 + (
        buffer[4] as u64) * 0x10000000000 + (buffer[5] as u64) * 0x100000000 + (buffer[6] as u64)
            * 0x1000000 + (buffer[7] as u64) * 0x10000 + (buffer[8] as u64) * 0x100 + (
        buffer[9] as u64)
    } else {
        len7 as u64
    };
    if payload_len > max_frame as u64 {
        return Err(Error::MaxFrameSize);
    }
    let is_server = match kind {
        WriterKind::Server => true,
        WriterKind::Client => false,
    };
    if (is_server && !masked) || (!is_server && masked) {
        return Err(Error::MaskingViolation);
    }
    let offset: usize = if masked { header_len + 4 } else { header_len };
    if buffer.len() < offset {
        return Ok(None);
    }
    let plen: usize = payload_len as usize;
    if buffer.len() - offset < plen {
        return Ok(None);
    }
    let mut payload = crate::bytetext::subvec(buffer, offset, offset + plen);
    if masked {
        let mask: [u8; 4] = [buffer[header_len], buffer[header_len + 1], buffer[header_len + 2],
            buffer[header_len + 3]];
        proof {
            assert(mask@ =~= buffer@.subrange(header_len as int, header_len + 4));
        }
        crate::frame::apply_mask(&mut payload, &mask);
    }
    Ok(Some((Frame { final_fragment, opcode, payload, compressed: rsv1 }, offset + plen)))
}

/// One fragmented message being put back together.
pub struct FragmentedMessage {
    /// The data-frame payloads received so far, in order.
    pub fragments: Vec<u8>,
    /// The opcode of the frame that started the message.
    pub op_code: OpCode,
    /// Whether that first frame carried RSV1, so the whole reassembled
    /// payload goes through the decoder at the end.
    pub compressed: bool,
}

/// What the surrounding runtime must do after the reader took one frame.
#[derive(Debug)]
pub enum ReadEvent {
    /// Nothing outward; the frame only advanced the reassembly state.
    Nothing,
    /// A whole message is ready for the consumer.
    Deliver(Message),
    /// A Ping came in: a Pong with this same payload must go out before
    /// any further delivery.
    SendPong(Vec<u8>),
    /// A Close came in: a Close goes out in reply and reading stops.
    CloseAndReply,
}

/// The frame-processing half of the reader: owns the reassembly buffer
/// and the inbound decompression context.
pub struct ReadStream {
    /// The message in progress, if any; `None` at session start and after
    /// every completed or aborted message.
    pub fragmented_message: Option<FragmentedMessage>,
    /// The session limits and negotiated extensions.
    pub config: WebSocketConfig,
    /// The inbound deflate context.
    pub decoder: Decoder,
}

impl ReadStream {
    /// A reader with no message in progress.
    pub fn new(config: WebSocketConfig, decoder: Decoder) -> (r: Self)
        ensures
            r.fragmented_message is None,
            r.config == config,
    {
        ReadStream { fragmented_message: None, config, decoder }
    }

    /// Build the message a finished reassembly stands for, decompressing
    /// first when the message was compressed.
    fn finish_message(&mut self, op_code: OpCode, compressed: bool, bytes: Vec<u8>) -> (r: Result<
        Message,
        Error,
    >)
        ensures
            final(self).fragmented_message == old(self).fragmented_message,
            final(self).config == old(self).config,
            !compressed ==> {
                &&& r is Ok <==> (op_code != OpCode::Text || valid_utf8(bytes@))
                &&& r is Ok ==> spec_message_bytes(r->Ok_0) == bytes@
                &&& r is Ok ==> (r->Ok_0 is Text <==> op_code == OpCode::Text)
                &&& op_code == OpCode::Text && !valid_utf8(bytes@) ==> r == Err::<Message, Error>(
                    Error::InvalidUtf8,
                )
            },
            compressed ==> (r is Ok ==> (r->Ok_0 is Text <==> op_code == OpCode::Text)),
    {
        let payload = if compressed {
            let limit = self.config.message_size_limit();
            match self.decoder.decompress(&bytes, limit) {
                Ok(d) => d,
                Err(e) => {
                    return Err(e);
                },
            }
        } else {
            bytes
        };
        match op_code {
            OpCode::Text => match crate::message::Message::from_frame(
                Frame { final_fragment: true, opcode: OpCode::Text, payload, compressed: false },
            ) {
                Ok(m) => Ok(m),
                Err(e) => Err(e),
            },
            _ => Ok(Message::Binary(payload)),
        }
    }

    /// Take one decoded frame and advance the reassembly state machine.
    ///
    /// Data frames start, extend or finish a fragmented message exactly
    /// as RFC 6455 prescribes; a continuation with nothing in progress,
    /// a second message starting mid-reassembly, and a buffer passing
    /// the message cap are each rejected with their own error, and a
    /// failed continuation aborts the message in progress.  Control
    /// frames never
    /// touch the buffer: a Ping asks for a Pong with the identical
    /// payload, a Pong is absorbed, and a Close asks for the close
    /// reply.
    pub fn process_frame(&mut self, frame: Frame) -> (r: Result<ReadEvent, Error>)
        ensures
            final(self).config == old(self).config,
            // Control frames: state untouched, the event answers them.
            frame.opcode == OpCode::Ping ==> r is Ok && (r->Ok_0 matches ReadEvent::SendPong(p)
                && p@ == frame.payload@) && final(self).fragmented_message == old(self).fragmented_message,
            frame.opcode == OpCode::Pong ==> r == Ok::<ReadEvent, Error>(ReadEvent::Nothing)
                && final(self).fragmented_message == old(self).fragmented_message,
            frame.opcode == OpCode::Close ==> r == Ok::<ReadEvent, Error>(ReadEvent::CloseAndReply)
                && final(self).fragmented_message == old(self).fragmented_message,
            // A continuation with nothing in progress is an orphan.
            frame.opcode == OpCode::Continue && old(self).fragmented_message is None ==> r
                == Err::<ReadEvent, Error>(Error::InvalidContinuationFrame) && final(self).fragmented_message is None,
            // A data frame while a message is in progress is rejected.
            (frame.opcode == OpCode::Text || frame.opcode == OpCode::Binary) && old(self).fragmented_message is Some ==> r is Err && (r->Err_0 == (
            if frame.final_fragment {
                Error::InvalidFrameFragmentation
            } else {
                Error::FragmentedInProgress
            })),
            // A non-final data frame with nothing in progress starts one.
            (frame.opcode == OpCode::Text || frame.opcode == OpCode::Binary)
                && !frame.final_fragment && old(self).fragmented_message is None
                && frame.payload@.len() <= spec_message_size_limit(old(self).config) ==> r
                == Ok::<ReadEvent, Error>(ReadEvent::Nothing) && (final(self).fragmented_message matches Some(fm) && fm.fragments@ == frame.payload@ && fm.op_code
                == frame.opcode && fm.compressed == frame.compressed),
            // A continuation extends the buffer, within the message cap.
            frame.opcode == OpCode::Continue && (old(self).fragmented_message matches Some(fm)
                && fm.fragments@.len() + frame.payload@.len() <= spec_message_size_limit(
                old(self).config,
            ) && !frame.final_fragment) ==> r == Ok::<ReadEvent, Error>(ReadEvent::Nothing) && (
            final(self).fragmented_message matches Some(fm2) && fm2.fragments@ == old(self).fragmented_message->0.fragments@ + frame.payload@ && fm2.op_code == old(self).fragmented_message->0.op_code && fm2.compressed == old(self).fragmented_message->0.compressed),
            // Passing the cap aborts the message.
            (frame.opcode == OpCode::Continue && (old(self).fragmented_message matches Some(fm)
                && fm.fragments@.len() + frame.payload@.len() > spec_message_size_limit(
                old(self).config,
            ))) ==> r == Err::<ReadEvent, Error>(Error::MaxMessageSize) && final(self).fragmented_message is None,
            // The final continuation of an uncompressed message delivers
            // the concatenation of every fragment, in order.
            (frame.opcode == OpCode::Continue && frame.final_fragment && (old(self).fragmented_message matches Some(fm) && fm.fragments@.len() + frame.payload@.len()
                <= spec_message_size_limit(old(self).config) && !fm.compressed)) ==> final(self).fragmented_message is None && {
                let whole = old(self).fragmented_message->0.fragments@ + frame.payload@;
                let op = old(self).fragmented_message->0.op_code;
                &&& r is Ok <==> (op != OpCode::Text || valid_utf8(whole))
                &&& r is Ok ==> (r->Ok_0 matches ReadEvent::Deliver(m) && spec_message_bytes(m)
                    == whole)
                &&& op == OpCode::Text && !valid_utf8(whole) ==> r == Err::<ReadEvent, Error>(
                    Error::InvalidUtf8,
                )
            },
            // The final continuation of a compressed message also clears
            // the state, whatever the decoder returned.
            (frame.opcode == OpCode::Continue && frame.final_fragment && (old(self).fragmented_message matches Some(fm) && fm.fragments@.len() + frame.payload@.len()
                <= spec_message_size_limit(old(self).config))) ==> final(self).fragmented_message is None,
            // An unfragmented uncompressed data frame delivers its own
            // payload.
            ((frame.opcode == OpCode::Text || frame.opcode == OpCode::Binary)
                && frame.final_fragment && old(self).fragmented_message is None
                && frame.payload@.len() <= spec_message_size_limit(old(self).config)
                && !frame.compressed) ==> final(self).fragmented_message is None && {
                &&& r is Ok <==> (frame.opcode != OpCode::Text || valid_utf8(frame.payload@))
                &&& r is Ok ==> (r->Ok_0 matches ReadEvent::Deliver(m) && spec_message_bytes(m)
                    == frame.payload@)
                &&& frame.opcode == OpCode::Text && !valid_utf8(frame.payload@) ==> r == Err::<
                    ReadEvent,
                    Error,
                >(Error::InvalidUtf8)
            },
            // A data frame larger than the whole-message cap is refused.
            ((frame.opcode == OpCode::Text || frame.opcode == OpCode::Binary) && old(self).fragmented_message is None && frame.payload@.len() > spec_message_size_limit(
                old(self).config,
            )) ==> r == Err::<ReadEvent, Error>(Error::MaxMessageSize) && final(self).fragmented_message is None,
            // A delivered message carries the variant of its initiating
            // opcode, compressed or not.
            (frame.opcode == OpCode::Text || frame.opcode == OpCode::Binary) && r is Ok
                && r->Ok_0 is Deliver ==> (r->Ok_0->Deliver_0 is Text <==> frame.opcode
                == OpCode::Text),
            frame.opcode == OpCode::Continue && old(self).fragmented_message is Some && r is Ok
                && r->Ok_0 is Deliver ==> (r->Ok_0->Deliver_0 is Text <==> old(
                self,
            ).fragmented_message->0.op_code == OpCode::Text),
    {
        let limit = self.config.message_size_limit();
        match frame.opcode {
            OpCode::Text | OpCode::Binary => {
                if self.fragmented_message.is_some() {
                    if frame.final_fragment {
                        return Err(Error::InvalidFrameFragmentation);
                    } else {
                        return Err(Error::FragmentedInProgress);
                    }
                }
                if frame.payload.len() > limit {
                    return Err(Error::MaxMessageSize);
                }
                if !frame.final_fragment {
                    self.fragmented_message = Some(
                        FragmentedMessage {
                            op_code: frame.opcode,
                            fragments: frame.payload,
                            compressed: frame.compressed,
                        },
                    );
                    return Ok(ReadEvent::Nothing);
                }
                let m = self.finish_message(frame.opcode, frame.compressed, frame.payload)?;
                Ok(ReadEvent::Deliver(m))
            },
            OpCode::Continue => {
                let fm = match self.fragmented_message.take() {
                    Some(fm) => fm,
                    None => {
                        return Err(Error::InvalidContinuationFrame);
                    },
                };
                let mut fragments = fm.fragments;
                if frame.payload.len() > limit || fragments.len() > limit - frame.payload.len() {
                    return Err(Error::MaxMessageSize);
                }
                let mut payload = frame.payload;
                fragments.append(&mut payload);
                if !frame.final_fragment {
                    self.fragmented_message = Some(
                        FragmentedMessage {
                            op_code: fm.op_code,
                            fragments,
                            compressed: fm.compressed,
                        },
                    );
                    return Ok(ReadEvent::Nothing);
                }
                let m = self.finish_message(fm.op_code, fm.compressed, fragments)?;
                Ok(ReadEvent::Deliver(m))
            },
            OpCode::Close => Ok(ReadEvent::CloseAndReply),
            OpCode::Ping => Ok(ReadEvent::SendPong(frame.payload)),
            OpCode::Pong => Ok(ReadEvent::Nothing),
        }
    }
}

/// Reassembly in the reader's order — start empty, append each fragment
/// payload as its frame arrives, which is the fold `flatten_alt`
/// computes — yields the concatenation of all the fragments, and the
/// reassembled length is the sum of the fragment lengths.
pub proof fn lemma_reassembled_length(payloads: Seq<Seq<u8>>)
    ensures
        payloads.flatten_alt() == payloads.flatten(),
        payloads.flatten().len() == spec_sum_lens(payloads),
    decreases payloads.len(),
{
    payloads.lemma_flatten_and_flatten_alt_are_equivalent();
    if payloads.len() == 0 {
    } else {
        lemma_reassembled_length(payloads.drop_first());
    }
}

/// The summed length of a list of payloads.
pub open spec fn spec_sum_lens(payloads: Seq<Seq<u8>>) -> nat
    decreases payloads.len(),
{
    if payloads.len() == 0 {
        0
    } else {
        payloads[0].len() + spec_sum_lens(payloads.drop_first())
    }
}

/// An eight-byte big-endian rendering reconstructs its value.
proof fn lemma_be8_value(n: u64)
    by (bit_vector)
    ensures
        (n / 0x100000000000000) * 0x100000000000000 + ((n / 0x1000000000000) % 256)
            * 0x1000000000000 + ((n / 0x10000000000) % 256) * 0x10000000000 + ((n / 0x100000000)
            % 256) * 0x100000000 + ((n / 0x1000000) % 256) * 0x1000000 + ((n / 0x10000) % 256)
            * 0x10000 + ((n / 0x100) % 256) * 0x100 + (n % 256) == n,
        n / 0x100000000000000 < 256,
{
}

/// Eight bytes assembled big-endian take those bytes back apart.
proof fn lemma_be8_bytes(b2: u8, b3: u8, b4: u8, b5: u8, b6: u8, b7: u8, b8: u8, b9: u8)
    by (bit_vector)
    ensures
        ({
            let n = (b2 * 0x100000000000000 + b3 * 0x1000000000000 + b4 * 0x10000000000 + b5
                * 0x100000000 + b6 * 0x1000000 + b7 * 0x10000 + b8 * 0x100 + b9) as u64;
            &&& n / 0x100000000000000 == b2
            &&& (n / 0x1000000000000) % 256 == b3
            &&& (n / 0x10000000000) % 256 == b4
            &&& (n / 0x100000000) % 256 == b5
            &&& (n / 0x1000000) % 256 == b6
            &&& (n / 0x10000) % 256 == b7
            &&& (n / 0x100) % 256 == b8
            &&& n % 256 == b9
        }),
{
}

/// The first header byte takes its three fields back apart.
proof fn lemma_first_byte_fields(fin: bool, rsv1: bool, op: OpCode)
    ensures
        spec_first_byte(fin, rsv1, op) / 128 == (if fin { 1int } else { 0int }),
        (spec_first_byte(fin, rsv1, op) / 64) % 2 == (if rsv1 { 1int } else { 0int }),
        (spec_first_byte(fin, rsv1, op) / 32) % 2 == 0,
        (spec_first_byte(fin, rsv1, op) / 16) % 2 == 0,
        spec_first_byte(fin, rsv1, op) % 16 == opcode_value(op),
{
    let v = opcode_value(op);
    assert(v <= 10);
    let b0 = spec_first_byte(fin, rsv1, op);
    assert(b0 == (if fin { 128int } else { 0int }) + (if rsv1 { 64int } else { 0int }) + v);
}

/// A valid opcode number maps back to the opcode it came from.
proof fn lemma_opcode_of_value(op: OpCode)
    ensures
        spec_opcode_of(opcode_value(op)) == op,
{
}

/// The three length encodings at their boundaries: a payload of up to
/// 125 bytes spends one length byte, lengths 126 through 65535 spend
/// three (the marker 126 and two big-endian bytes), and longer payloads
/// spend nine (the marker 127 and eight big-endian bytes).
pub proof fn lemma_len_field_shape(n: nat)
    requires
        n <= u64::MAX,
    ensures
        n <= 125 ==> spec_len_field(n) == seq![n as u8],
        126 <= n <= 65535 ==> spec_len_field(n).len() == 3 && spec_len_field(n)[0] == 126,
        n > 65535 ==> spec_len_field(n).len() == 9 && spec_len_field(n)[0] == 127,
        spec_len_field(n)[0] <= 127,
{
    if 126 <= n <= 65535 {
        assert(spec_len_field(n) == seq![126u8, (n / 256) as u8, (n % 256) as u8]);
    }
}

/// Decoding a frame that the server-side writer produced gives back the
/// frame exactly, and consumes the whole encoding.  The preconditions are
/// the writer's own discipline: the payload fits the frame cap, RSV1 is
/// only set under negotiated compression, and control frames are final
/// and short.
pub proof fn lemma_decode_encode_server(
    fin: bool,
    rsv1: bool,
    op: OpCode,
    payload: Seq<u8>,
    max_frame: nat,
    deflate: bool,
)
    requires
        payload.len() <= max_frame,
        payload.len() <= u64::MAX,
        rsv1 ==> deflate,
        spec_is_control(op) ==> fin && payload.len() <= 125,
    ensures
        spec_frame_bytes_server(fin, rsv1, op, payload).len() == 1 + spec_len_field(
            payload.len(),
        ).len() + payload.len(),
        spec_decode_frame(spec_frame_bytes_server(fin, rsv1, op, payload), WriterKind::Client,
            max_frame, deflate) == (SpecDecoded::Done {
            fin,
            rsv1,
            op,
            payload,
            used: spec_frame_bytes_server(fin, rsv1, op, payload).len() as int,
        }),
{
    let n = payload.len();
    let lf = spec_len_field(n);
    let b = spec_frame_bytes_server(fin, rsv1, op, payload);
    lemma_first_byte_fields(fin, rsv1, op);
    lemma_opcode_of_value(op);
    lemma_len_field_shape(n);
    assert(b[0] == spec_first_byte(fin, rsv1, op));
    assert(b.len() == 1 + lf.len() + n);
    assert(b[1] == lf[0]);
    assert(b[1] / 128 == 0);
    let len7 = b[1] % 128;
    assert(len7 == lf[0]);
    if n <= 125 {
        assert(len7 == n);
        assert(spec_ext_len(b, len7) == n);
        assert(b.subrange(2, 2 + n as int) =~= payload);
    } else if n <= 65535 {
        assert(len7 == 126);
        assert(b[2] == (n / 256) as u8 && b[3] == (n % 256) as u8);
        assert(n / 256 <= 255);
        assert((n / 256) * 256 + n % 256 == n) by (nonlinear_arith);
        assert(spec_ext_len(b, len7) == n);
        assert(b.subrange(4, 4 + n as int) =~= payload);
    } else {
        assert(len7 == 127);
        let m = n as u64;
        lemma_be8_value(m);
        assert(b[2] == (n / 0x100000000000000) as u8);
        assert(spec_ext_len(b, len7) == n);
        assert(b.subrange(10, 10 + n as int) =~= payload);
    }
}

/// Decoding a frame that the client-side writer produced under some mask
/// gives back the frame exactly: the mask comes off, and the whole
/// encoding is consumed.
pub proof fn lemma_decode_encode_client(
    fin: bool,
    rsv1: bool,
    op: OpCode,
    payload: Seq<u8>,
    mask: Seq<u8>,
    max_frame: nat,
    deflate: bool,
)
    requires
        payload.len() <= max_frame,
        payload.len() <= u64::MAX,
        mask.len() == 4,
        rsv1 ==> deflate,
        spec_is_control(op) ==> fin && payload.len() <= 125,
    ensures
        spec_frame_bytes_client(fin, rsv1, op, payload, mask).len() == 5 + spec_len_field(
            payload.len(),
        ).len() + payload.len(),
        spec_decode_frame(spec_frame_bytes_client(fin, rsv1, op, payload, mask),
            WriterKind::Server, max_frame, deflate) == (SpecDecoded::Done {
            fin,
            rsv1,
            op,
            payload,
            used: spec_frame_bytes_client(fin, rsv1, op, payload, mask).len() as int,
        }),
{
    let n = payload.len();
    let lf = spec_len_field(n);
    let b = spec_frame_bytes_client(fin, rsv1, op, payload, mask);
    lemma_first_byte_fields(fin, rsv1, op);
    lemma_opcode_of_value(op);
    lemma_len_field_shape(n);
    let hl = 1 + lf.len() as int;
    assert(b[0] == spec_first_byte(fin, rsv1, op));
    assert(b.len() == 1 + lf.len() + 4 + n);
    assert(b[1] == (lf[0] + 128) as u8);
    assert(lf[0] <= 127);
    assert(b[1] / 128 == 1);
    let len7 = b[1] % 128;
    assert(len7 == lf[0]);
    assert(b.subrange(hl, hl + 4) =~= mask);
    let masked_payload = mask_seq(payload, mask);
    lemma_mask_roundtrip(payload, mask);
    if n <= 125 {
        assert(len7 == n);
        assert(spec_ext_len(b, len7) == n);
        assert(b.subrange(6, 6 + n as int) =~= masked_payload);
        assert(mask_seq(b.subrange(6, 6 + n as int), b.subrange(2, 6)) == payload);
    } else if n <= 65535 {
        assert(len7 == 126);
        assert(b[2] == (n / 256) as u8 && b[3] == (n % 256) as u8);
        assert(n / 256 <= 255);
        assert((n / 256) * 256 + n % 256 == n) by (nonlinear_arith);
        assert(spec_ext_len(b, len7) == n);
        assert(b.subrange(8, 8 + n as int) =~= masked_payload);
        assert(mask_seq(b.subrange(8, 8 + n as int), b.subrange(4, 8)) == payload);
    } else {
        assert(len7 == 127);
        let m = n as u64;
        lemma_be8_value(m);
        assert(b[2] == (n / 0x100000000000000) as u8);
        assert(spec_ext_len(b, len7) == n);
        assert(b.subrange(14, 14 + n as int) =~= masked_payload);
        assert(mask_seq(b.subrange(14, 14 + n as int), b.subrange(10, 14)) == payload);
    }
}

/// Re-encoding a decoded frame restores the original bytes: for any
/// buffer that decodes completely as one RFC-valid frame in its minimal
/// length encoding, the writer for the sending side produces that buffer
/// byte for byte (under the same mask, read back out of the buffer, when
/// the frame was masked).
#[verifier::rlimit(100)]
pub proof fn lemma_encode_decode_roundtrip(
    b: Seq<u8>,
    kind: WriterKind,
    max_frame: nat,
    deflate: bool,
)
    requires
        spec_decode_frame(b, kind, max_frame, deflate) is Done,
        spec_decode_frame(b, kind, max_frame, deflate)->used == b.len(),
        b[1] % 128 == 126 ==> spec_decode_frame(b, kind, max_frame, deflate)->payload.len() > 125,
        b[1] % 128 == 127 ==> spec_decode_frame(b, kind, max_frame, deflate)->payload.len()
            > 65535,
    ensures
        ({
            let d = spec_decode_frame(b, kind, max_frame, deflate);
            kind is Client ==> b == spec_frame_bytes_server(d->fin, d->rsv1, d->op, d->payload)
        }),
        ({
            let d = spec_decode_frame(b, kind, max_frame, deflate);
            kind is Server ==> b == spec_frame_bytes_client(d->fin, d->rsv1, d->op, d->payload,
                b.subrange(
                    (if b[1] % 128 == 126 { 4int } else if b[1] % 128 == 127 { 10int } else { 2int }),
                    (if b[1] % 128 == 126 { 8int } else if b[1] % 128 == 127 { 14int } else { 6int }),
                ))
        }),
{
    let d = spec_decode_frame(b, kind, max_frame, deflate);
    let b0 = b[0];
    let b1 = b[1];
    let fin = b0 / 128 == 1;
    let rsv1 = (b0 / 64) % 2 == 1;
    let opv = b0 % 16;
    let op = spec_opcode_of(opv);
    let masked = b1 / 128 == 1;
    let len7 = b1 % 128;
    let hl = if len7 == 126 { 4int } else if len7 == 127 { 10int } else { 2int };
    let plen = spec_ext_len(b, len7);
    let off = hl + if masked { 4int } else { 0int };
    let raw = b.subrange(off, off + plen as int);
    let mask = b.subrange(hl, hl + 4);
    // The decoded fields are exactly these.
    assert(d->fin == fin && d->rsv1 == rsv1 && d->op == op && d->used == off + plen);
    assert(d->payload == (if masked { mask_seq(raw, mask) } else { raw }));
    // Reassemble the first byte from its fields.
    assert(opcode_value(op) == opv) by {
        assert(is_valid_opcode_byte(opv));
    }
    assert(b0 == 128 * ((b0 / 128) % 2) + 64 * ((b0 / 64) % 2) + 32 * ((b0 / 32) % 2) + 16 * ((b0
        / 16) % 2) + (b0 % 16)) by (bit_vector);
    assert((b0 / 128) % 2 == b0 / 128) by (bit_vector);
    assert((b0 / 32) % 2 == 0 && (b0 / 16) % 2 == 0);
    assert(b0 == spec_first_byte(fin, rsv1, op));
    // Reassemble the second byte and the length field.
    assert(b1 == 128 * (b1 / 128) + (b1 % 128)) by (bit_vector);
    assert(b1 / 128 <= 1) by (bit_vector);
    let lf = spec_len_field(plen);
    assert(plen <= u64::MAX) by {
        if len7 == 127 {
            let c2 = b[2];
            let c3 = b[3];
            let c4 = b[4];
            let c5 = b[5];
            let c6 = b[6];
            let c7 = b[7];
            let c8 = b[8];
            let c9 = b[9];
            assert(c2 * 0x100000000000000 + c3 * 0x1000000000000 + c4 * 0x10000000000 + c5
                * 0x100000000 + c6 * 0x1000000 + c7 * 0x10000 + c8 * 0x100 + c9
                <= 0xffffffffffffffff) by (bit_vector);
        }
    };
    if len7 == 126 {
        let c2 = b[2];
        let c3 = b[3];
        assert(plen == (c2 * 256 + c3) as nat);
        assert(plen <= 65535);
        assert(plen > 125);
        assert((c2 * 256 + c3) / 256 == c2 && (c2 * 256 + c3) % 256 == c3) by (bit_vector);
        assert(lf =~= seq![126u8, b[2], b[3]]);
    } else if len7 == 127 {
        assert(plen > 65535);
        lemma_be8_bytes(b[2], b[3], b[4], b[5], b[6], b[7], b[8], b[9]);
        assert(spec_be8(plen) =~= b.subrange(2, 10));
        assert(lf =~= seq![127u8] + b.subrange(2, 10));
    } else {
        assert(0 <= b1 % 128 < 128);
        assert(plen == len7 as nat);
        assert(plen <= 125);
        assert(lf =~= seq![len7]);
    }
    if kind is Client {
        assert(!masked);
        assert(b1 == lf[0]);
        let e = spec_frame_bytes_server(d->fin, d->rsv1, d->op, d->payload);
        assert(e =~= b);
    } else {
        assert(masked);
        assert(b1 == (lf[0] + 128) as u8) by {
            assert(lf[0] == len7);
            assert(len7 <= 127) by (bit_vector)
                requires
                    len7 == b1 % 128,
            ;
        };
        lemma_mask_roundtrip(raw, mask);
        assert(mask_seq(d->payload, mask) == raw);
        let e = spec_frame_bytes_client(d->fin, d->rsv1, d->op, d->payload, mask);
        assert(e =~= b);
    }
}

} // verus!
