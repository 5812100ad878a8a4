//! Frames as RFC 6455 defines them: the opcode table, the frame record,
//! and the 4-byte XOR masking that clients apply to every payload.

use vstd::prelude::*;
use crate::error::Error;

verus! {

/// The six assigned opcodes.  `Continue`, `Text` and `Binary` are data
/// opcodes; `Close`, `Ping` and `Pong` are control opcodes.
#[derive(Debug, Clone, Copy, PartialEq, Eq, Structural)]
pub enum OpCode {
    Continue,
    Text,
    Binary,
    Close,
    Ping,
    Pong,
}

/// The number RFC 6455 assigns to each opcode.
pub open spec fn opcode_value(op: OpCode) -> u8 {
    match op {
        OpCode::Continue => 0x0,
        OpCode::Text => 0x1,
        OpCode::Binary => 0x2,
        OpCode::Close => 0x8,
        OpCode::Ping => 0x9,
        OpCode::Pong => 0xA,
    }
}

/// Holds exactly of the six assigned opcode numbers.
pub open spec fn is_valid_opcode_byte(byte: u8) -> bool {
    byte == 0x0 || byte == 0x1 || byte == 0x2 || byte == 0x8 || byte == 0x9 || byte == 0xA
}

/// Holds of `Close`, `Ping` and `Pong`.
pub open spec fn spec_is_control(op: OpCode) -> bool {
    op == OpCode::Close || op == OpCode::Ping || op == OpCode::Pong
}

impl OpCode {
    /// Decode an opcode number; every byte outside the assigned table is
    /// rejected as `InvalidOpcode`.
    pub fn from(byte: u8) -> (r: Result<Self, Error>)
        ensures
            r is Ok <==> is_valid_opcode_byte(byte),
            r is Ok ==> opcode_value(r->Ok_0) == byte,
            r is Err ==> r->Err_0 == Error::InvalidOpcode,
    {
        match byte {
            0x0 => Ok(OpCode::Continue),
            0x1 => Ok(OpCode::Text),
            0x2 => Ok(OpCode::Binary),
            0x8 => Ok(OpCode::Close),
            0x9 => Ok(OpCode::Ping),
            0xA => Ok(OpCode::Pong),
            _ => Err(Error::InvalidOpcode),
        }
    }

    /// The opcode number that goes on the wire.
    pub fn as_u8(&self) -> (r: u8)
        ensures
            r == opcode_value(*self),
    {
        match self {
            OpCode::Continue => 0x0,
            OpCode::Text => 0x1,
            OpCode::Binary => 0x2,
            OpCode::Close => 0x8,
            OpCode::Ping => 0x9,
            OpCode::Pong => 0xA,
        }
    }

    /// Whether this is a control opcode.
    pub fn is_control(&self) -> (r: bool)
        ensures
            r == spec_is_control(*self),
    {
        matches!(self, OpCode::Close | OpCode::Ping | OpCode::Pong)
    }
}

/// One frame: the final-fragment bit, the opcode, the (unmasked) payload,
/// and whether the frame takes part in a compressed message (the RSV1 bit).
#[derive(Debug, Clone)]
pub struct Frame {
    pub final_fragment: bool,
    pub opcode: OpCode,
    pub payload: Vec<u8>,
    pub compressed: bool,
}

impl Frame {
    /// Build a frame from its four parts.
    pub fn new(final_fragment: bool, opcode: OpCode, payload: Vec<u8>, compressed: bool) -> (r: Self)
        ensures
            r.final_fragment == final_fragment,
            r.opcode == opcode,
            r.payload@ == payload@,
            r.compressed == compressed,
    {
        Self { final_fragment, opcode, payload, compressed }
    }
}

/// The byte sequence that masking (or unmasking, the operation is its own
/// inverse) produces: each byte XOR-ed with the mask byte at its index mod 4.
pub open spec fn mask_seq(payload: Seq<u8>, mask: Seq<u8>) -> Seq<u8>
    recommends
        mask.len() == 4,
{
    Seq::new(payload.len(), |i: int| payload[i] ^ mask[i % 4])
}

/// Apply the 4-byte XOR mask in place: afterwards every byte is
/// `old(payload)[i] ^ mask[i mod 4]`.
pub fn apply_mask(payload: &mut Vec<u8>, mask: &[u8; 4])
    ensures
        final(payload)@ == mask_seq(old(payload)@, mask@),
{
    let len = payload.len();
    let mut i: usize = 0;
    while i < len
        invariant
            len == payload@.len(),
            len == old(payload)@.len(),
            i <= len,
            mask@.len() == 4,
            forall|j: int| 0 <= j < i ==> payload@[j] == old(payload)@[j] ^ mask@[j % 4],
            forall|j: int| i <= j < len ==> payload@[j] == old(payload)@[j],
        decreases len - i,
    {
        let b = payload[i];
        payload.set(i, b ^ mask[i % 4]);
        i = i + 1;
    }
    assert(payload@ =~= mask_seq(old(payload)@, mask@));
}

/// Masking is an involution: applying the same mask twice restores every
/// byte, so unmasking is the same operation as masking.
pub proof fn lemma_mask_roundtrip(payload: Seq<u8>, mask: Seq<u8>)
    requires
        mask.len() == 4,
    ensures
        mask_seq(mask_seq(payload, mask), mask) == payload,
{
    assert(forall|x: u8, y: u8| #[trigger] ((x ^ y) ^ y) == x) by (bit_vector);
    assert(mask_seq(mask_seq(payload, mask), mask) =~= payload);
}

} // verus!
