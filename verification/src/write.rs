//! Serializing one frame to wire bytes: header byte, minimal length
//! encoding, and — for clients — the random mask and the masked payload.

use vstd::prelude::*;
use crate::frame::{apply_mask, mask_seq, opcode_value, Frame, OpCode};

verus! {

/// Which side of the connection writes: clients mask every frame, servers
/// never do.
#[derive(Debug, Clone, Copy, PartialEq, Eq, Structural)]
pub enum WriterKind {
    Client,
    Server,
}

/// The eight bytes of a big-endian 64-bit length.
pub open spec fn spec_be8(n: nat) -> Seq<u8>
    recommends
        n <= u64::MAX,
{
    seq![
        (n / 0x100000000000000) as u8,
        ((n / 0x1000000000000) % 256) as u8,
        ((n / 0x10000000000) % 256) as u8,
        ((n / 0x100000000) % 256) as u8,
        ((n / 0x1000000) % 256) as u8,
        ((n / 0x10000) % 256) as u8,
        ((n / 0x100) % 256) as u8,
        (n % 256) as u8,
    ]
}

/// The minimal RFC 6455 length encoding, before the mask bit is set: one
/// byte up to 125, `126` and two big-endian bytes up to 65535, and `127`
/// followed by eight big-endian bytes beyond that.
pub open spec fn spec_len_field(n: nat) -> Seq<u8>
    recommends
        n <= u64::MAX,
{
    if n <= 125 {
        seq![n as u8]
    } else if n <= 65535 {
        seq![126u8, (n / 256) as u8, (n % 256) as u8]
    } else {
        seq![127u8] + spec_be8(n)
    }
}

/// The first header byte: final bit, RSV1 bit, and the opcode number.
pub open spec fn spec_first_byte(fin: bool, rsv1: bool, op: OpCode) -> u8 {
    ((if fin { 128int } else { 0int }) + (if rsv1 { 64int } else { 0int }) + opcode_value(op)) as u8
}

/// A whole unmasked frame as a server puts it on the wire.
pub open spec fn spec_frame_bytes_server(fin: bool, rsv1: bool, op: OpCode, payload: Seq<u8>) -> Seq<u8>
    recommends
        payload.len() <= u64::MAX,
{
    seq![spec_first_byte(fin, rsv1, op)] + spec_len_field(payload.len()) + payload
}

/// A whole masked frame as a client puts it on the wire: the mask bit is
/// set on the first length byte, the four mask bytes follow the length,
/// and the payload goes out XOR-masked.
pub open spec fn spec_frame_bytes_client(
    fin: bool,
    rsv1: bool,
    op: OpCode,
    payload: Seq<u8>,
    mask: Seq<u8>,
) -> Seq<u8>
    recommends
        payload.len() <= u64::MAX,
        mask.len() == 4,
{
    let lf = spec_len_field(payload.len());
    seq![spec_first_byte(fin, rsv1, op)] + seq![(lf[0] + 128) as u8] + lf.drop_first() + mask
        + mask_seq(payload, mask)
}

/// Append the minimal length encoding of `n`, with the mask bit set on
/// its first byte when `set_mask_bit` holds.
fn push_len_field(out: &mut Vec<u8>, n: usize, set_mask_bit: bool)
    ensures
        final(out)@ == old(out)@ + (if set_mask_bit {
            seq![(spec_len_field(n as nat)[0] + 128) as u8] + spec_len_field(n as nat).drop_first()
        } else {
            spec_len_field(n as nat)
        }),
{
    let mask_add: u8 = if set_mask_bit { 128 } else { 0 };
    if n <= 125 {
        out.push(n as u8 + mask_add);
        assert(out@ =~= old(out)@ + (if set_mask_bit {
            seq![(spec_len_field(n as nat)[0] + 128) as u8] + spec_len_field(
                n as nat,
            ).drop_first()
        } else {
            spec_len_field(n as nat)
        }));
    } else if n <= 65535 {
        out.push(126 + mask_add);
        out.push((n / 256) as u8);
        out.push((n % 256) as u8);
        assert(out@ =~= old(out)@ + (if set_mask_bit {
            seq![(spec_len_field(n as nat)[0] + 128) as u8] + spec_len_field(
                n as nat,
            ).drop_first()
        } else {
            spec_len_field(n as nat)
        }));
    } else {
        let m = n as u64;
        out.push(127 + mask_add);
        out.push((m / 0x100000000000000) as u8);
        out.push(((m / 0x1000000000000) % 256) as u8);
        out.push(((m / 0x10000000000) % 256) as u8);
        out.push(((m / 0x100000000) % 256) as u8);
        out.push(((m / 0x1000000) % 256) as u8);
        out.push(((m / 0x10000) % 256) as u8);
        out.push(((m / 0x100) % 256) as u8);
        out.push((m % 256) as u8);
        assert(out@ =~= old(out)@ + (if set_mask_bit {
            seq![(spec_len_field(n as nat)[0] + 128) as u8] + spec_len_field(
                n as nat,
            ).drop_first()
        } else {
            spec_len_field(n as nat)
        }));
    }
}

/// Opcode numbers stay below 16, so the header byte sum stays below 256.
proof fn lemma_opcode_value_small(op: OpCode)
    ensures
        opcode_value(op) <= 10,
{
}

/// Serialize one frame the way a server does: no mask.
pub fn write_frame_server(frame: &Frame, set_rsv1: bool) -> (r: Vec<u8>)
    ensures
        r@ == spec_frame_bytes_server(frame.final_fragment, set_rsv1, frame.opcode,
            frame.payload@),
{
    let mut out: Vec<u8> = Vec::new();
    proof {
        lemma_opcode_value_small(frame.opcode);
    }
    let first_byte: u8 = (if frame.final_fragment { 128u8 } else { 0u8 }) + (if set_rsv1 {
        64u8
    } else {
        0u8
    }) + frame.opcode.as_u8();
    out.push(first_byte);
    push_len_field(&mut out, frame.payload.len(), false);
    let mut i: usize = 0;
    let ghost head = out@;
    while i < frame.payload.len()
        invariant
            i <= frame.payload@.len(),
            out@ == head + frame.payload@.subrange(0, i as int),
        decreases frame.payload@.len() - i,
    {
        out.push(frame.payload[i]);
        assert(head + frame.payload@.subrange(0, i + 1) =~= (head + frame.payload@.subrange(
            0,
            i as int,
        )).push(frame.payload@[i as int]));
        i = i + 1;
    }
    proof {
        assert(frame.payload@.subrange(0, frame.payload@.len() as int) =~= frame.payload@);
        assert(out@ =~= spec_frame_bytes_server(frame.final_fragment, set_rsv1, frame.opcode,
            frame.payload@));
    }
    out
}

/// Serialize one frame the way a client does, under the given mask: mask
/// bit set, mask bytes after the length, payload XOR-masked.
pub fn write_frame_client_with_mask(frame: &Frame, set_rsv1: bool, mask: &[u8; 4]) -> (r: Vec<u8>)
    ensures
        r@ == spec_frame_bytes_client(frame.final_fragment, set_rsv1, frame.opcode,
            frame.payload@, mask@),
{
    let mut out: Vec<u8> = Vec::new();
    proof {
        lemma_opcode_value_small(frame.opcode);
    }
    let first_byte: u8 = (if frame.final_fragment { 128u8 } else { 0u8 }) + (if set_rsv1 {
        64u8
    } else {
        0u8
    }) + frame.opcode.as_u8();
    out.push(first_byte);
    push_len_field(&mut out, frame.payload.len(), true);
    out.push(mask[0]);
    out.push(mask[1]);
    out.push(mask[2]);
    out.push(mask[3]);
    let ghost head = out@;
    proof {
        let lf = spec_len_field(frame.payload@.len());
        assert(head =~= seq![
            spec_first_byte(frame.final_fragment, set_rsv1, frame.opcode),
        ] + seq![(lf[0] + 128) as u8] + lf.drop_first() + mask@);
    }
    let mut masked = frame.payload.clone();
    assert(masked@ =~= frame.payload@);
    apply_mask(&mut masked, mask);
    let mut i: usize = 0;
    let ghost head2 = out@;
    while i < masked.len()
        invariant
            i <= masked@.len(),
            out@ == head2 + masked@.subrange(0, i as int),
        decreases masked@.len() - i,
    {
        out.push(masked[i]);
        assert(head2 + masked@.subrange(0, i + 1) =~= (head2 + masked@.subrange(0, i as int)).push(
            masked@[i as int],
        ));
        i = i + 1;
    }
    proof {
        assert(masked@.subrange(0, masked@.len() as int) =~= masked@);
        assert(out@ =~= spec_frame_bytes_client(frame.final_fragment, set_rsv1, frame.opcode,
            frame.payload@, mask@));
    }
    out
}

/// Whether `bytes` is the wire encoding of the given frame fields for
/// the given side: servers write the frame unmasked, clients under some
/// 4-byte mask.
pub open spec fn spec_wire_frame_matches(
    kind: WriterKind,
    fin: bool,
    rsv1: bool,
    op: OpCode,
    payload: Seq<u8>,
    bytes: Seq<u8>,
) -> bool {
    match kind {
        WriterKind::Server => bytes == spec_frame_bytes_server(fin, rsv1, op, payload),
        WriterKind::Client => exists|m: Seq<u8>|
            m.len() == 4 && bytes == spec_frame_bytes_client(fin, rsv1, op, payload, m),
    }
}

/// Relies on `rand::random`: four bytes drawn from the thread-local
/// generator, fresh for every frame.
#[verifier::external_body]
fn random_mask() -> (r: [u8; 4]) {
    rand::random()
}

/// The byte-producing half of the writer: remembers which side it writes
/// for and serializes frames accordingly.
pub struct Writer {
    pub kind: WriterKind,
}

impl Writer {
    /// A writer for the given side.
    pub fn new(kind: WriterKind) -> (r: Self)
        ensures
            r.kind == kind,
    {
        Self { kind }
    }

    /// Serialize one frame the server way, unmasked, whatever side this
    /// writer is for.
    pub fn write_frame_server(&self, frame: &Frame, set_rsv1: bool) -> (r: Vec<u8>)
        ensures
            r@ == spec_frame_bytes_server(frame.final_fragment, set_rsv1, frame.opcode,
                frame.payload@),
    {
        write_frame_server(frame, set_rsv1)
    }

    /// Serialize one frame the client way: masked under a fresh random
    /// 4-byte mask.
    pub fn write_frame_client(&self, frame: &Frame, set_rsv1: bool) -> (r: Vec<u8>)
        ensures
            exists|m: Seq<u8>|
                m.len() == 4 && r@ == spec_frame_bytes_client(frame.final_fragment, set_rsv1,
                    frame.opcode, frame.payload@, m),
    {
        let mask = random_mask();
        let r = write_frame_client_with_mask(frame, set_rsv1, &mask);
        proof {
            assert(mask@.len() == 4);
        }
        r
    }

    /// Serialize one frame for this side: servers write it unmasked, and
    /// clients mask it under a fresh random mask, so the bytes match the
    /// client encoding under some 4-byte mask.
    pub fn write_frame(&self, frame: &Frame, set_rsv1: bool) -> (r: Vec<u8>)
        ensures
            spec_wire_frame_matches(self.kind, frame.final_fragment, set_rsv1, frame.opcode,
                frame.payload@, r@),
            self.kind is Server ==> r@ == spec_frame_bytes_server(frame.final_fragment, set_rsv1,
                frame.opcode, frame.payload@),
            self.kind is Client ==> exists|m: Seq<u8>|
                m.len() == 4 && r@ == spec_frame_bytes_client(frame.final_fragment, set_rsv1,
                    frame.opcode, frame.payload@, m),
    {
        match self.kind {
            WriterKind::Server => self.write_frame_server(frame, set_rsv1),
            WriterKind::Client => self.write_frame_client(frame, set_rsv1),
        }
    }
}

} // verus!
