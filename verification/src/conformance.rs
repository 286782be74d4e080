//! Conformance harness boundary: a minimal, representation-independent
//! interface over the frame model (construct, serialize, deserialize,
//! equality), with flat result codes, so an independent implementation of
//! the protocol can be driven and compared frame-for-frame and
//! byte-for-byte against this one.

use vstd::prelude::*;

use crate::encoding;
use crate::frame;
use crate::frame::Frame;
use crate::frame::FrameView;
use crate::frame::spec_deserialize;
use crate::frame::spec_serialize;

verus! {

/// Flat result code of a deserialization attempt.
#[derive(Debug, Clone, Copy, PartialEq, Eq, Structural)]
pub enum DeserializeError {
    DeserializeOk,
    InvalidStartByte,
    InvalidEndByte,
    UnexpectedEOF,
    ExpectedEOF,
    CRC32MissMatch,
    InvalidEscapeSequence,
}

/// Flat result code of a serialization attempt.
#[derive(Debug, Clone, Copy, PartialEq, Eq, Structural)]
pub enum SerializeError {
    SerializeOk,
    EncodeError,
    FrameTooLongError,
}

/// The flat code that stands for a frame-model deserialization error.
pub open spec fn spec_deserialize_code(e: frame::DeserializeError) -> DeserializeError {
    match e {
        frame::DeserializeError::InvalidFrameBeginByte => DeserializeError::InvalidStartByte,
        frame::DeserializeError::InvalidFrameEndByte => DeserializeError::InvalidEndByte,
        frame::DeserializeError::UnexpectedEOF => DeserializeError::UnexpectedEOF,
        frame::DeserializeError::ExpectedFrameEnd(_) => DeserializeError::ExpectedEOF,
        frame::DeserializeError::CRC32MissMatch { .. } => DeserializeError::CRC32MissMatch,
        frame::DeserializeError::DecodeError(d) => match d {
            encoding::DecodeError::InvalidEscapeSequence(..) => DeserializeError::InvalidEscapeSequence,
            encoding::DecodeError::UnexpectedEOF => DeserializeError::UnexpectedEOF,
        },
    }
}

/// Builds a frame from its three plain fields.
pub fn new_frame(sender: u8, receiver: u8, cmd: &[u8]) -> (f: Frame)
    ensures
        f@ == (FrameView { sender, receiver, data: cmd@ }),
{
    let mut data: Vec<u8> = Vec::new();
    let mut i: usize = 0;
    while i < cmd.len()
        invariant
            i <= cmd.len(),
            data@ =~= cmd@.subrange(0, i as int),
        decreases cmd.len() - i,
    {
        data.push(cmd[i]);
        proof {
            assert(cmd@.subrange(0, i + 1) =~= cmd@.subrange(0, i as int).push(cmd@[i as int]));
        }
        i = i + 1;
    }
    proof {
        assert(cmd@.subrange(0, cmd@.len() as int) =~= cmd@);
    }
    Frame { sender, receiver, data }
}

/// Serializes a frame to wire bytes with a flat result code: the code is
/// `SerializeOk` and the bytes are the wire form exactly when the payload
/// fits the length field, else `FrameTooLongError` and no bytes.
pub fn serialize_frame(f: &Frame) -> (r: (SerializeError, Vec<u8>))
    ensures
        f@.data.len() <= u16::MAX ==> r.0 == SerializeError::SerializeOk && r.1@ == spec_serialize(
            f@,
        ),
        f@.data.len() > u16::MAX ==> r.0 == SerializeError::FrameTooLongError && r.1@
            == Seq::<u8>::empty(),
{
    match f.serialize() {
        Ok(bytes) => (SerializeError::SerializeOk, bytes),
        Err(_) => (SerializeError::FrameTooLongError, Vec::new()),
    }
}

/// Deserializes wire bytes with a flat result code: `DeserializeOk` and the
/// frame exactly when the frame model accepts the bytes, else the code that
/// stands for the model's error and no frame.
pub fn deserialize_frame(data: &[u8]) -> (r: (DeserializeError, Option<Frame>))
    ensures
        match spec_deserialize(data@) {
            Ok(fv) => r.0 == DeserializeError::DeserializeOk && (r.1 matches Some(f) && f@ == fv),
            Err(e) => r.0 == spec_deserialize_code(e) && r.1 is None,
        },
{
    match Frame::deserialize(data) {
        Ok(f) => (DeserializeError::DeserializeOk, Some(f)),
        Err(e) => {
            let code = match e {
                frame::DeserializeError::InvalidFrameBeginByte => DeserializeError::InvalidStartByte,
                frame::DeserializeError::InvalidFrameEndByte => DeserializeError::InvalidEndByte,
                frame::DeserializeError::UnexpectedEOF => DeserializeError::UnexpectedEOF,
                frame::DeserializeError::ExpectedFrameEnd(_) => DeserializeError::ExpectedEOF,
                frame::DeserializeError::CRC32MissMatch { .. } => DeserializeError::CRC32MissMatch,
                frame::DeserializeError::DecodeError(d) => match d {
                    encoding::DecodeError::InvalidEscapeSequence(
                        ..
                    ) => DeserializeError::InvalidEscapeSequence,
                    encoding::DecodeError::UnexpectedEOF => DeserializeError::UnexpectedEOF,
                },
            };
            (code, None)
        },
    }
}

/// Structural frame equality: same sender, receiver and payload bytes.
pub fn frame_eq(f1: &Frame, f2: &Frame) -> (b: bool)
    ensures
        b <==> f1@ == f2@,
{
    f1 == f2
}

} // verus!
