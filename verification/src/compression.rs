//! The per-message deflate pipeline: a stateful raw-deflate compressor
//! and decompressor with the RFC 7692 tail transformation — the encoder
//! strips the `00 00 FF FF` block that a sync flush leaves, the decoder
//! puts it back — and the context-takeover policy.

use vstd::prelude::*;
use crate::error::Error;

verus! {

#[verifier::external_type_specification]
#[verifier::external_body]
pub struct ExCompress(flate2::Compress);

#[verifier::external_type_specification]
#[verifier::external_body]
pub struct ExDecompress(flate2::Decompress);

/// The four bytes of the empty deflate block that a sync flush emits.
pub open spec fn spec_deflate_trailer() -> Seq<u8> {
    seq![0u8, 0u8, 255u8, 255u8]
}

/// Whether the last four bytes are the sync-flush trailer.
pub open spec fn spec_ends_with_trailer(s: Seq<u8>) -> bool {
    s.len() >= 4 && s.subrange(s.len() - 4, s.len() as int) == spec_deflate_trailer()
}

/// `s` with the sync-flush trailer removed when it is there.
pub open spec fn spec_strip_trailer(s: Seq<u8>) -> Seq<u8> {
    if spec_ends_with_trailer(s) {
        s.subrange(0, s.len() - 4)
    } else {
        s
    }
}

/// Stripping undoes appending: putting the trailer back on stripped
/// output restores it, and stripping a freshly appended trailer gives
/// the bytes back.  This is the verifiable half of the RFC 7692 tail
/// transformation; what deflate itself does to the bytes lives behind
/// the compressor and is exercised by tests.
pub proof fn lemma_trailer_roundtrip(s: Seq<u8>)
    ensures
        spec_strip_trailer(s + spec_deflate_trailer()) == s,
        spec_ends_with_trailer(s) ==> spec_strip_trailer(s) + spec_deflate_trailer() == s,
{
    let t = s + spec_deflate_trailer();
    assert(t.subrange(t.len() - 4, t.len() as int) =~= spec_deflate_trailer());
    assert(t.subrange(0, t.len() - 4) =~= s);
    if spec_ends_with_trailer(s) {
        assert(s.subrange(0, s.len() - 4) + s.subrange(s.len() - 4, s.len() as int) =~= s);
    }
}

/// Remove the sync-flush trailer from the end, when it is there.
fn strip_trailer(data: &mut Vec<u8>)
    ensures
        final(data)@ == spec_strip_trailer(old(data)@),
{
    let n = data.len();
    if n >= 4 && data[n - 4] == 0 && data[n - 3] == 0 && data[n - 2] == 255 && data[n - 1] == 255 {
        assert(data@.subrange(data@.len() - 4, data@.len() as int) =~= spec_deflate_trailer());
        data.truncate(n - 4);
    } else {
        assert(!spec_ends_with_trailer(data@));
    }
}

/// Append the sync-flush trailer.
fn append_trailer(data: &mut Vec<u8>)
    ensures
        final(data)@ == old(data)@ + spec_deflate_trailer(),
{
    data.push(0);
    data.push(0);
    data.push(255);
    data.push(255);
    assert(data@ =~= old(data)@ + spec_deflate_trailer());
}

/// The scratch-buffer size for a payload: small payloads get small
/// buffers, large ones are capped at 64 KiB.
pub fn calculate_buffer_size(payload_size: usize) -> (r: usize)
    ensures
        payload_size <= 4096 ==> r == 4096,
        4096 < payload_size <= 65536 ==> r == 16384,
        payload_size > 65536 ==> r == 65536,
{
    if payload_size <= 4096 {
        4096
    } else if payload_size <= 65536 {
        16384
    } else {
        65536
    }
}

/// Relies on `flate2::Decompress::new`: a raw-inflate stream (no zlib
/// header) with the default 15-bit window.
#[verifier::external_body]
fn new_decompress_default() -> flate2::Decompress {
    flate2::Decompress::new(false)
}

/// Relies on `flate2::Decompress::new_with_window_bits`: a raw-inflate
/// stream with the given window; it panics outside 9..=15, which the
/// precondition rules out.
#[verifier::external_body]
fn new_decompress_window(window_bits: u8) -> flate2::Decompress
    requires
        9 <= window_bits <= 15,
{
    flate2::Decompress::new_with_window_bits(false, window_bits)
}

/// Relies on `flate2::Decompress::reset`: drops the stream state, as if
/// freshly constructed, keeping raw-inflate mode.
#[verifier::external_body]
fn reset_decompress(ctx: &mut flate2::Decompress) {
    ctx.reset(false);
}

/// Relies on `flate2::Decompress::total_in`: the input bytes consumed
/// over the stream's whole life.
#[verifier::external_body]
fn inflate_total_in(ctx: &flate2::Decompress) -> u64 {
    ctx.total_in()
}

/// Relies on `flate2::Decompress::decompress_vec` with a sync flush: it
/// consumes input from the front, appends what it inflates into the
/// vector's spare capacity, and says whether the stream ended.
#[verifier::external_body]
fn inflate_step(ctx: &mut flate2::Decompress, input: &Vec<u8>, offset: usize, space: usize) -> (r:
    Result<(Vec<u8>, bool), Error>)
    requires
        offset <= input@.len(),
    ensures
        r is Err ==> r->Err_0 == Error::CompressionError,
{
    let mut buf: Vec<u8> = Vec::with_capacity(space);
    match ctx.decompress_vec(&input[offset..], &mut buf, flate2::FlushDecompress::Sync) {
        Ok(status) => Ok((buf, matches!(status, flate2::Status::StreamEnd))),
        Err(_) => Err(Error::CompressionError),
    }
}

/// Relies on `flate2::Compress::new`: a raw-deflate stream (no zlib
/// header) at the default level with the default 15-bit window.
#[verifier::external_body]
fn new_compress_default() -> flate2::Compress {
    flate2::Compress::new(flate2::Compression::default(), false)
}

/// Relies on `flate2::Compress::new_with_window_bits`: a raw-deflate
/// stream with the given window; it panics outside 9..=15, which the
/// precondition rules out.
#[verifier::external_body]
fn new_compress_window(window_bits: u8) -> flate2::Compress
    requires
        9 <= window_bits <= 15,
{
    flate2::Compress::new_with_window_bits(flate2::Compression::default(), false, window_bits)
}

/// Relies on `flate2::Compress::reset`: drops the stream state, as if
/// freshly constructed.
#[verifier::external_body]
fn reset_compress(ctx: &mut flate2::Compress) {
    ctx.reset();
}

/// Relies on `flate2::Compress::total_in`: the input bytes consumed over
/// the stream's whole life.
#[verifier::external_body]
fn deflate_total_in(ctx: &flate2::Compress) -> u64 {
    ctx.total_in()
}

/// Relies on `flate2::Compress::compress_vec` with a sync flush: it
/// consumes input from the front and appends the deflate output,
/// including the flush's empty block once the input is through, into the
/// vector's spare capacity.
#[verifier::external_body]
fn deflate_step(ctx: &mut flate2::Compress, input: &Vec<u8>, offset: usize, space: usize) -> (r:
    Result<Vec<u8>, Error>)
    requires
        offset <= input@.len(),
    ensures
        r is Err ==> r->Err_0 == Error::CompressionError,
{
    let mut buf: Vec<u8> = Vec::with_capacity(space);
    match ctx.compress_vec(&input[offset..], &mut buf, flate2::FlushCompress::Sync) {
        Ok(_) => Ok(buf),
        Err(_) => Err(Error::CompressionError),
    }
}

/// How many input bytes a step consumed: the growth of `total_in`,
/// clamped into the range that is left, so later arithmetic stays in
/// bounds whatever the stream reported.
fn consumed_bytes(before: u64, after: u64, remaining: usize) -> (r: usize)
    ensures
        r <= remaining,
{
    if after > before {
        let d = after - before;
        if d < remaining as u64 {
            d as usize
        } else {
            remaining
        }
    } else {
        0
    }
}

/// The stateful decompressor for inbound compressed messages.
pub struct Decoder {
    /// The raw-inflate stream state.
    pub decompressor: flate2::Decompress,
    /// Whether the context is dropped after every message
    /// (`no_context_takeover` for the peer's direction).
    pub reset_context: bool,
}

impl Decoder {
    /// A decoder with the given reset policy and window size.  Window
    /// bits follow zlib's rule that a raw window of 8 is read as 9; a
    /// larger window than the peer compressed with is always able to
    /// decode its stream.
    pub fn new(reset_context: bool, window_bits: Option<u8>) -> (r: Self)
        requires
            window_bits is Some ==> 8 <= window_bits->0 <= 15,
        ensures
            r.reset_context == reset_context,
    {
        let decompressor = match window_bits {
            Some(wb) => {
                let w = if wb < 9 { 9 } else { wb };
                new_decompress_window(w)
            },
            None => new_decompress_default(),
        };
        Self { decompressor, reset_context }
    }

    /// Inflate one message payload: the RFC 7692 trailer is appended to
    /// the input, the stream is reset first under the no-takeover
    /// policy, and the output is refused once it would pass `max_out`.
    /// Whatever the deflate stream holds, the result never exceeds
    /// `max_out` bytes.
    pub fn decompress(&mut self, payload: &Vec<u8>, max_out: usize) -> (r: Result<Vec<u8>, Error>)
        ensures
            final(self).reset_context == old(self).reset_context,
            r is Ok ==> r->Ok_0@.len() <= max_out,
            r is Err ==> (r->Err_0 == Error::CompressionError || r->Err_0
                == Error::MaxMessageSize),
    {
        let mut input = payload.clone();
        append_trailer(&mut input);
        if self.reset_context {
            reset_decompress(&mut self.decompressor);
        }
        let space = calculate_buffer_size(input.len());
        let mut out: Vec<u8> = Vec::new();
        let mut offset: usize = 0;
        while offset < input.len()
            invariant
                self.reset_context == old(self).reset_context,
                offset <= input@.len(),
                out@.len() <= max_out,
            decreases (input@.len() - offset) + (max_out - out@.len()),
        {
            let remaining = input.len() - offset;
            let before = inflate_total_in(&self.decompressor);
            let step = inflate_step(&mut self.decompressor, &input, offset, space);
            let after = inflate_total_in(&self.decompressor);
            let (mut chunk, stream_end) = match step {
                Ok(p) => p,
                Err(e) => {
                    return Err(e);
                },
            };
            let consumed = consumed_bytes(before, after, remaining);
            let produced = chunk.len();
            if produced > max_out || out.len() > max_out - produced {
                return Err(Error::MaxMessageSize);
            }
            out.append(&mut chunk);
            offset = offset + consumed;
            if stream_end {
                return Ok(out);
            }
            if consumed == 0 && produced == 0 {
                return Err(Error::CompressionError);
            }
        }
        Ok(out)
    }
}

/// The stateful compressor for outbound messages.
pub struct Encoder {
    /// The raw-deflate stream state.
    pub compressor: flate2::Compress,
    /// Whether the context is dropped after every message
    /// (`no_context_takeover` for our own direction).
    pub reset_context: bool,
}

impl Encoder {
    /// An encoder with the given reset policy and window size.  Window
    /// bits follow zlib's rule that a raw window of 8 is written as 9.
    pub fn new(reset_context: bool, window_bits: Option<u8>) -> (r: Self)
        requires
            window_bits is Some ==> 8 <= window_bits->0 <= 15,
        ensures
            r.reset_context == reset_context,
    {
        let compressor = match window_bits {
            Some(wb) => {
                let w = if wb < 9 { 9 } else { wb };
                new_compress_window(w)
            },
            None => new_compress_default(),
        };
        Self { compressor, reset_context }
    }

    /// Deflate one message payload with a sync flush, strip the
    /// `00 00 FF FF` tail the flush leaves, and reset the stream
    /// afterwards under the no-takeover policy.  Deflate output beyond
    /// any reasonable expansion of the input is refused rather than
    /// collected without bound.
    pub fn compress(&mut self, payload: &Vec<u8>) -> (r: Result<Vec<u8>, Error>)
        ensures
            final(self).reset_context == old(self).reset_context,
            r is Err ==> r->Err_0 == Error::CompressionError,
    {
        let space = calculate_buffer_size(payload.len());
        // Sync-flushed deflate stays within a few bytes per block of its
        // input; far beyond that, stop collecting.
        let base = payload.len();
        let cap: usize = if base >= usize::MAX / 2 {
            usize::MAX
        } else {
            base + base / 8 + 1024
        };
        let mut out: Vec<u8> = Vec::new();
        let mut offset: usize = 0;
        while offset < payload.len()
            invariant
                self.reset_context == old(self).reset_context,
                offset <= payload@.len(),
                out@.len() <= cap,
            decreases (payload@.len() - offset) + (cap - out@.len()),
        {
            let remaining = payload.len() - offset;
            let before = deflate_total_in(&self.compressor);
            let step = deflate_step(&mut self.compressor, payload, offset, space);
            let after = deflate_total_in(&self.compressor);
            let mut chunk = match step {
                Ok(p) => p,
                Err(e) => {
                    return Err(e);
                },
            };
            let consumed = consumed_bytes(before, after, remaining);
            let produced = chunk.len();
            if produced > cap || out.len() > cap - produced {
                return Err(Error::CompressionError);
            }
            out.append(&mut chunk);
            offset = offset + consumed;
            if consumed == 0 && produced == 0 {
                return Err(Error::CompressionError);
            }
        }
        // Collect what the flush still holds: steps on empty input until
        // nothing more comes out.
        let mut flush_rounds: usize = 0;
        while flush_rounds < 64
            invariant
                self.reset_context == old(self).reset_context,
                flush_rounds <= 64,
                payload@.len() <= usize::MAX,
            decreases 64 - flush_rounds,
        {
            let step = deflate_step(&mut self.compressor, payload, payload.len(), space);
            let mut chunk = match step {
                Ok(p) => p,
                Err(e) => {
                    return Err(e);
                },
            };
            if chunk.len() == 0 {
                break;
            }
            if out.len() > usize::MAX - chunk.len() {
                return Err(Error::CompressionError);
            }
            out.append(&mut chunk);
            flush_rounds = flush_rounds + 1;
        }
        strip_trailer(&mut out);
        if self.reset_context {
            reset_compress(&mut self.compressor);
        }
        Ok(out)
    }
}

} // verus!
