//! Messages: the payload reassembled from one or more data frames,
//! delivered either as UTF-8 text or as raw bytes.

use vstd::prelude::*;
use vstd::string::StrSliceExecFns;
use vstd::utf8::{valid_utf8, encode_utf8};
use crate::error::Error;
use crate::frame::{Frame, OpCode};

verus! {

/// One delivered message: text (always valid UTF-8) or binary bytes.
#[derive(Debug, Clone, PartialEq)]
pub enum Message {
    Text(String),
    Binary(Vec<u8>),
}

/// The bytes a message stands for: the UTF-8 encoding of a text message,
/// or the binary payload itself.
pub open spec fn spec_message_bytes(m: Message) -> Seq<u8> {
    match m {
        Message::Text(s) => encode_utf8(s@),
        Message::Binary(d) => d@,
    }
}

/// Relies on `String::from_utf8`: it returns the string holding the given
/// bytes exactly when they are valid UTF-8, and rejects them otherwise.
#[verifier::external_body]
pub(crate) fn string_from_utf8(bytes: Vec<u8>) -> (r: Result<String, Error>)
    ensures
        r is Ok <==> valid_utf8(bytes@),
        r is Ok ==> encode_utf8(r->Ok_0@) == bytes@,
        r is Err ==> r->Err_0 == Error::InvalidUtf8,
{
    match String::from_utf8(bytes) {
        Ok(s) => Ok(s),
        Err(_) => Err(Error::InvalidUtf8),
    }
}

impl Message {
    /// Turn a completed frame into a message: `Text` payloads must be valid
    /// UTF-8, `Binary` payloads are taken as they are, and every other
    /// opcode is rejected.
    pub fn from_frame(frame: Frame) -> (r: Result<Self, Error>)
        ensures
            frame.opcode == OpCode::Text ==> {
                &&& r is Ok <==> valid_utf8(frame.payload@)
                &&& r is Ok ==> r->Ok_0 is Text && spec_message_bytes(r->Ok_0) == frame.payload@
                &&& r is Err ==> r->Err_0 == Error::InvalidUtf8
            },
            frame.opcode == OpCode::Binary ==> r is Ok && r->Ok_0 is Binary
                && spec_message_bytes(r->Ok_0) == frame.payload@,
            frame.opcode != OpCode::Text && frame.opcode != OpCode::Binary
                ==> r == Err::<Message, Error>(Error::InvalidOpcode),
    {
        match frame.opcode {
            OpCode::Text => Ok(Message::Text(string_from_utf8(frame.payload)?)),
            OpCode::Binary => Ok(Message::Binary(frame.payload)),
            _ => Err(Error::InvalidOpcode),
        }
    }

    /// The message payload as bytes; text is handed out UTF-8 encoded.
    pub fn as_binary(&self) -> (r: Vec<u8>)
        ensures
            r@ == spec_message_bytes(*self),
    {
        match self {
            Message::Text(text) => text.as_str().as_bytes_vec(),
            Message::Binary(data) => {
                let r = data.clone();
                assert(r@ =~= data@);
                r
            },
        }
    }

    /// The message payload as a string: text is handed back as it is, and
    /// binary data is accepted exactly when it is valid UTF-8.
    pub fn as_text(&self) -> (r: Result<String, Error>)
        ensures
            self is Text ==> r is Ok && r->Ok_0@ == self->Text_0@,
            self is Binary ==> {
                &&& r is Ok <==> valid_utf8(self->Binary_0@)
                &&& r is Ok ==> encode_utf8(r->Ok_0@) == self->Binary_0@
                &&& r is Err ==> r->Err_0 == Error::InvalidUtf8
            },
    {
        match self {
            Message::Text(text) => Ok(text.clone()),
            Message::Binary(data) => string_from_utf8(data.clone()),
        }
    }
}

} // verus!
