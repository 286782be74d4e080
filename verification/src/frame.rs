//! Frame model: the wire format of a frame, its serialization and
//! deserialization, and its CRC32 integrity checksum.
//!
//! Wire layout, before escaping:
//! `BEGIN  SENDER(1)  RECEIVER(1)  DATA_LEN(2, big-endian)  DATA  CRC32(4, big-endian)  END`.
//! The field bytes from sender through data are escaped with the codec; the
//! CRC bytes are appended raw; the two marker bytes are never escaped.

use vstd::prelude::*;

use crate::encoding::BEGIN_FRAME_BYTE;
use crate::encoding::DecodeError;
use crate::encoding::ESCAPE_BYTE;
use crate::encoding::END_FRAME_BYTE;
use crate::encoding::Encoding;
use crate::encoding::decode;
use crate::encoding::lemma_decode_encode_append;
use crate::encoding::lemma_decode_literal;
use crate::encoding::spec_decode;
use crate::encoding::spec_encode;

verus! {

/// Error raised when a frame's payload cannot be represented on the wire;
/// carries the offending payload length.
#[derive(Debug, Clone, Copy, PartialEq, Eq, Structural)]
pub struct CommandTooLongError(pub usize);

/// Error raised while serializing a frame.
#[derive(Debug, Clone, Copy, PartialEq, Eq, Structural)]
pub enum SerializeError {
    /// The payload does not fit the 16-bit length field.
    CommandTooLong(CommandTooLongError),
}

/// Error raised while deserializing a frame from wire bytes.
#[derive(Debug, Clone, Copy, PartialEq, Eq, Structural)]
pub enum DeserializeError {
    /// The input does not start with the frame-begin marker.
    InvalidFrameBeginByte,
    /// The input does not end with the frame-end marker.
    InvalidFrameEndByte,
    /// A field was cut short: fewer decoded bytes than the fields require.
    UnexpectedEOF,
    /// Decoded bytes were left over after the CRC field, at this position.
    ExpectedFrameEnd(usize),
    /// The recomputed checksum disagrees with the received one.
    CRC32MissMatch { received: u32, calculated: u32 },
    /// The escaped bytes between the markers could not be decoded.
    DecodeError(DecodeError),
}

/// The mathematical content of a frame: who sent it, whom it addresses,
/// and its payload bytes.
pub ghost struct FrameView {
    pub sender: u8,
    pub receiver: u8,
    pub data: Seq<u8>,
}

/// A frame: the protocol's atomic unit of addressed data. The CRC is
/// derived on demand, never stored; equality is structural.
#[derive(Debug, Clone)]
pub struct Frame {
    pub sender: u8,
    pub receiver: u8,
    pub data: Vec<u8>,
}

impl View for Frame {
    type V = FrameView;

    open spec fn view(&self) -> FrameView {
        FrameView { sender: self.sender, receiver: self.receiver, data: self.data@ }
    }
}

impl PartialEq for Frame {
    fn eq(&self, other: &Frame) -> (r: bool) {
        self.sender == other.sender && self.receiver == other.receiver && {
            if self.data.len() != other.data.len() {
                false
            } else {
                let mut i: usize = 0;
                let mut same = true;
                while i < self.data.len()
                    invariant
                        i <= self.data.len(),
                        self.data@.len() == other.data@.len(),
                        same <==> (forall|j: int|
                            0 <= j < i ==> self.data@[j] == other.data@[j]),
                    decreases self.data.len() - i,
                {
                    if self.data[i] != other.data[i] {
                        same = false;
                    }
                    i = i + 1;
                }
                proof {
                    if same {
                        assert(self.data@ =~= other.data@);
                    }
                }
                same
            }
        }
    }
}

impl Eq for Frame {}

impl vstd::std_specs::cmp::PartialEqSpecImpl for Frame {
    open spec fn obeys_eq_spec() -> bool {
        true
    }

    open spec fn eq_spec(&self, other: &Frame) -> bool {
        self@ == other@
    }
}

/// The CRC-32/MPEG-2 checksum of a byte sequence, as the `crc` crate
/// computes it: a fixed function of the bytes alone.
pub uninterp spec fn crc32_mpeg2_of(data: Seq<u8>) -> u32;

/// Relies on `crc::Crc::<u32>::checksum` with the `crc::CRC_32_MPEG_2`
/// parameters: the checksum depends on the input bytes and those fixed
/// parameters alone, so it is named by `crc32_mpeg2_of`.
#[verifier::external_body]
fn crc32_mpeg2(data: &[u8]) -> (r: u32)
    ensures
        r == crc32_mpeg2_of(data@),
{
    crc::Crc::<u32>::new(&crc::CRC_32_MPEG_2).checksum(data)
}

/// The two big-endian bytes of a 16-bit value.
pub open spec fn spec_u16_be(x: u16) -> Seq<u8> {
    seq![(x / 256) as u8, (x % 256) as u8]
}

/// The 16-bit value read from two big-endian bytes.
pub open spec fn spec_u16_of(hi: u8, lo: u8) -> u16 {
    (hi * 256 + lo) as u16
}

/// The four big-endian bytes of a 32-bit value.
pub open spec fn spec_u32_be(x: u32) -> Seq<u8> {
    spec_u16_be((x / 65536) as u16) + spec_u16_be((x % 65536) as u16)
}

/// The 32-bit value read from four big-endian bytes.
pub open spec fn spec_u32_of(b0: u8, b1: u8, b2: u8, b3: u8) -> u32 {
    (spec_u16_of(b0, b1) * 65536 + spec_u16_of(b2, b3)) as u32
}

/// The unescaped field bytes of a frame, in wire order: sender, receiver,
/// big-endian payload length, payload.
pub open spec fn spec_wire_fields(f: FrameView) -> Seq<u8> {
    seq![f.sender, f.receiver] + spec_u16_be(f.data.len() as u16) + f.data
}

/// How many zero bytes the checksum is padded with: enough to bring the
/// count of hashed bytes (4 + payload length) to a multiple of 4. The
/// padding is hashed but never transmitted.
pub open spec fn spec_crc_pad_len(n: nat) -> nat {
    ((4 - (n % 4)) % 4) as nat
}

/// The exact byte sequence the checksum is computed over: the unescaped
/// field bytes followed by the zero padding.
pub open spec fn spec_crc_input(f: FrameView) -> Seq<u8> {
    spec_wire_fields(f) + Seq::new(spec_crc_pad_len(f.data.len()), |i: int| 0u8)
}

/// A frame's checksum.
pub open spec fn spec_crc32(f: FrameView) -> u32 {
    crc32_mpeg2_of(spec_crc_input(f))
}

/// A frame's complete wire form: begin marker, escaped field bytes, raw
/// big-endian checksum bytes, end marker.
pub open spec fn spec_serialize(f: FrameView) -> Seq<u8> {
    seq![BEGIN_FRAME_BYTE] + spec_encode(spec_wire_fields(f)) + spec_u32_be(spec_crc32(f))
        + seq![END_FRAME_BYTE]
}

/// What parsing the decoded bytes between the markers yields: the fields in
/// wire order, with nothing left over, and a matching checksum.
pub open spec fn spec_parse_decoded(d: Seq<u8>) -> Result<FrameView, DeserializeError> {
    if d.len() < 4 {
        Err(DeserializeError::UnexpectedEOF)
    } else {
        let cmd_len = spec_u16_of(d[2], d[3]) as int;
        if d.len() < cmd_len + 8 {
            Err(DeserializeError::UnexpectedEOF)
        } else if d.len() > cmd_len + 8 {
            Err(DeserializeError::ExpectedFrameEnd((cmd_len + 8) as usize))
        } else {
            let f = FrameView { sender: d[0], receiver: d[1], data: d.subrange(4, 4 + cmd_len) };
            let received = spec_u32_of(
                d[4 + cmd_len],
                d[5 + cmd_len],
                d[6 + cmd_len],
                d[7 + cmd_len],
            );
            let calculated = spec_crc32(f);
            if received == calculated {
                Ok(f)
            } else {
                Err(DeserializeError::CRC32MissMatch { received, calculated })
            }
        }
    }
}

/// What deserializing a whole buffer yields, or the first error met: the
/// marker checks, the unescaping, then the field parse.
pub open spec fn spec_deserialize(s: Seq<u8>) -> Result<FrameView, DeserializeError> {
    if s.len() == 0 || s[0] != BEGIN_FRAME_BYTE {
        Err(DeserializeError::InvalidFrameBeginByte)
    } else if s[s.len() - 1] != END_FRAME_BYTE {
        Err(DeserializeError::InvalidFrameEndByte)
    } else {
        match spec_decode(s.subrange(1, s.len() - 1)) {
            Err(e) => Err(DeserializeError::DecodeError(e)),
            Ok(d) => spec_parse_decoded(d),
        }
    }
}

/// Reading back the two big-endian bytes of a 16-bit value gives the value.
proof fn lemma_u16_be_of(x: u16)
    ensures
        spec_u16_of(spec_u16_be(x)[0], spec_u16_be(x)[1]) == x,
{
    assert(x / 256 < 256);
    assert((x / 256) * 256 + x % 256 == x);
}

/// Reading back the four big-endian bytes of a 32-bit value gives the value.
proof fn lemma_u32_be_of(x: u32)
    ensures
        spec_u32_of(spec_u32_be(x)[0], spec_u32_be(x)[1], spec_u32_be(x)[2], spec_u32_be(x)[3])
            == x,
{
    let hi = (x / 65536) as u16;
    let lo = (x % 65536) as u16;
    lemma_u16_be_of(hi);
    lemma_u16_be_of(lo);
    assert((x / 65536) * 65536 + x % 65536 == x);
}

impl Frame {
    /// The reserved byte that opens every frame on the wire.
    pub const BEGIN_FRAME_BYTE: u8 = 0x28;

    /// The reserved byte that closes every frame on the wire.
    pub const END_FRAME_BYTE: u8 = 0x29;

    /// The payload length as the 16-bit wire field, or an error if the
    /// payload is too long for that field to represent.
    pub fn get_command_len(&self) -> (r: Result<u16, CommandTooLongError>)
        ensures
            r is Ok <==> self@.data.len() <= u16::MAX,
            r matches Ok(n) ==> n == self@.data.len(),
            r matches Err(e) ==> e == CommandTooLongError(self.data.len()),
    {
        if self.data.len() <= 65535 {
            Ok(self.data.len() as u16)
        } else {
            Err(CommandTooLongError(self.data.len()))
        }
    }

    /// The size of this frame once serialized, counting markers, fields and
    /// checksum but not the escaping.
    pub fn serialized_len(&self) -> (n: usize)
        requires
            self@.data.len() + 10 <= usize::MAX,
        ensures
            n == self@.data.len() + 10,
    {
        self.data.len() + 10
    }

    /// The unescaped field bytes in wire order: sender, receiver, big-endian
    /// payload length, payload; fails when the payload is too long.
    pub fn iter_wire(&self) -> (r: Result<Vec<u8>, SerializeError>)
        ensures
            r is Ok <==> self@.data.len() <= u16::MAX,
            r matches Ok(v) ==> v@ == spec_wire_fields(self@),
            r matches Err(e) ==> e == SerializeError::CommandTooLong(
                CommandTooLongError(self.data.len()),
            ),
    {
        let cmd_len = match self.get_command_len() {
            Ok(n) => n,
            Err(e) => {
                return Err(SerializeError::CommandTooLong(e));
            },
        };
        let mut out: Vec<u8> = Vec::new();
        out.push(self.sender);
        out.push(self.receiver);
        out.push((cmd_len / 256) as u8);
        out.push((cmd_len % 256) as u8);
        let mut i: usize = 0;
        while i < self.data.len()
            invariant
                i <= self.data@.len(),
                out@ =~= seq![self@.sender, self@.receiver] + spec_u16_be(
                    self@.data.len() as u16,
                ) + self@.data.subrange(0, i as int),
            decreases self.data.len() - i,
        {
            out.push(self.data[i]);
            proof {
                assert(self@.data.subrange(0, i + 1) =~= self@.data.subrange(0, i as int).push(
                    self@.data[i as int],
                ));
            }
            i = i + 1;
        }
        proof {
            assert(self@.data.subrange(0, self@.data.len() as int) =~= self@.data);
            assert(out@ =~= spec_wire_fields(self@));
        }
        Ok(out)
    }

    /// The frame's CRC-32/MPEG-2 checksum over sender, receiver, length
    /// field, payload and the zero padding that brings the hashed byte count
    /// to a multiple of 4; fails when the payload is too long.
    pub fn calculate_crc32(&self) -> (r: Result<u32, SerializeError>)
        ensures
            r is Ok <==> self@.data.len() <= u16::MAX,
            r matches Ok(c) ==> c == spec_crc32(self@),
            r matches Err(e) ==> e == SerializeError::CommandTooLong(
                CommandTooLongError(self.data.len()),
            ),
    {
        let mut input = match self.iter_wire() {
            Ok(v) => v,
            Err(e) => {
                return Err(e);
            },
        };
        let pad = (4 - (self.data.len() % 4)) % 4;
        let mut k: usize = 0;
        while k < pad
            invariant
                k <= pad,
                input@ =~= spec_wire_fields(self@) + Seq::new(k as nat, |i: int| 0u8),
            decreases pad - k,
        {
            input.push(0u8);
            proof {
                assert(Seq::new((k + 1) as nat, |i: int| 0u8) =~= Seq::new(
                    k as nat,
                    |i: int| 0u8,
                ).push(0u8));
            }
            k = k + 1;
        }
        proof {
            assert(pad == spec_crc_pad_len(self@.data.len()));
            assert(input@ =~= spec_crc_input(self@));
        }
        Ok(crc32_mpeg2(input.as_slice()))
    }

    /// Serializes this frame to its wire form: begin marker, the escaped
    /// field bytes, the raw checksum bytes, end marker. A payload longer
    /// than the 16-bit length field fails before any byte is produced.
    pub fn serialize(&self) -> (r: Result<Vec<u8>, SerializeError>)
        ensures
            r is Ok <==> self@.data.len() <= u16::MAX,
            r matches Ok(v) ==> v@ == spec_serialize(self@),
            r matches Err(e) ==> e == SerializeError::CommandTooLong(
                CommandTooLongError(self.data.len()),
            ),
    {
        let fields = match self.iter_wire() {
            Ok(v) => v,
            Err(e) => {
                return Err(e);
            },
        };
        let crc = match self.calculate_crc32() {
            Ok(c) => c,
            Err(e) => {
                return Err(e);
            },
        };
        let mut out: Vec<u8> = Vec::new();
        out.push(BEGIN_FRAME_BYTE);
        let _ = out.encode(fields.as_slice());
        let hi = (crc / 65536) as u16;
        let lo = (crc % 65536) as u16;
        out.push((hi / 256) as u8);
        out.push((hi % 256) as u8);
        out.push((lo / 256) as u8);
        out.push((lo % 256) as u8);
        out.push(END_FRAME_BYTE);
        proof {
            assert(out@ =~= spec_serialize(self@));
        }
        Ok(out)
    }

    /// Deserializes a frame from its wire form, reporting the first of:
    /// missing begin marker, missing end marker, a malformed escape, a field
    /// cut short, bytes left over after the checksum, or a checksum mismatch.
    pub fn deserialize(data: &[u8]) -> (r: Result<Frame, DeserializeError>)
        ensures
            r matches Ok(f) ==> spec_deserialize(data@) == Ok::<FrameView, DeserializeError>(f@),
            r matches Err(e) ==> spec_deserialize(data@) == Err::<FrameView, DeserializeError>(e),
    {
        if data.len() == 0 || data[0] != BEGIN_FRAME_BYTE {
            return Err(DeserializeError::InvalidFrameBeginByte);
        }
        if data[data.len() - 1] != END_FRAME_BYTE {
            return Err(DeserializeError::InvalidFrameEndByte);
        }
        let middle: &[u8] = &data[1..data.len() - 1];
        assert(middle@ == data@.subrange(1, data@.len() - 1));
        let d = match decode(middle) {
            Ok(v) => v,
            Err(e) => {
                return Err(DeserializeError::DecodeError(e));
            },
        };
        if d.len() < 4 {
            return Err(DeserializeError::UnexpectedEOF);
        }
        let sender = d[0];
        let receiver = d[1];
        let cmd_len: usize = (d[2] as usize) * 256 + (d[3] as usize);
        if d.len() < cmd_len + 8 {
            return Err(DeserializeError::UnexpectedEOF);
        }
        if d.len() > cmd_len + 8 {
            return Err(DeserializeError::ExpectedFrameEnd(cmd_len + 8));
        }
        let mut cmd: Vec<u8> = Vec::new();
        let mut i: usize = 0;
        while i < cmd_len
            invariant
                i <= cmd_len,
                cmd_len <= 65535,
                cmd_len + 8 == d@.len(),
                cmd@ =~= d@.subrange(4, 4 + i as int),
            decreases cmd_len - i,
        {
            cmd.push(d[4 + i]);
            proof {
                assert(d@.subrange(4, 4 + (i + 1)) =~= d@.subrange(4, 4 + i as int).push(
                    d@[4 + i as int],
                ));
            }
            i = i + 1;
        }
        let received: u32 = (d[4 + cmd_len] as u32) * 16777216 + (d[5 + cmd_len] as u32) * 65536
            + (d[6 + cmd_len] as u32) * 256 + (d[7 + cmd_len] as u32);
        let frame = Frame { sender, receiver, data: cmd };
        proof {
            assert(frame@.data =~= d@.subrange(4, 4 + cmd_len as int));
            assert(spec_u16_of(d@[2], d@[3]) == cmd_len);
            assert(received == spec_u32_of(
                d@[4 + cmd_len],
                d@[5 + cmd_len],
                d@[6 + cmd_len],
                d@[7 + cmd_len],
            ));
        }
        let calculated = match frame.calculate_crc32() {
            Ok(c) => c,
            Err(_) => {
                proof {
                    assert(frame@.data.len() <= u16::MAX);
                    assert(false);
                }
                return Err(DeserializeError::UnexpectedEOF);
            },
        };
        if received == calculated {
            Ok(frame)
        } else {
            Err(DeserializeError::CRC32MissMatch { received, calculated })
        }
    }
}

/// Round-trip law of the frame model: serializing a frame whose payload
/// fits the length field and then deserializing the bytes gives the frame
/// back, whenever none of the four raw checksum bytes equals the escape
/// byte (a checksum byte equal to it would be misread by the unescaping
/// step, since the checksum is transmitted unescaped).
pub proof fn lemma_serialize_deserialize(f: FrameView)
    requires
        f.data.len() <= u16::MAX,
    ensures
        (forall|i: int| 0 <= i < 4 ==> spec_u32_be(spec_crc32(f))[i] != ESCAPE_BYTE)
            ==> spec_deserialize(spec_serialize(f)) == Ok::<FrameView, DeserializeError>(f),
{
    if forall|i: int| 0 <= i < 4 ==> spec_u32_be(spec_crc32(f))[i] != ESCAPE_BYTE {
        let wf = spec_wire_fields(f);
        let crc = spec_crc32(f);
        let crc4 = spec_u32_be(crc);
        let s = spec_serialize(f);
        assert(crc4.len() == 4);
        assert(s[0] == BEGIN_FRAME_BYTE);
        assert(s[s.len() - 1] == END_FRAME_BYTE);
        assert(s.len() >= 2);
        let middle = s.subrange(1, s.len() - 1);
        assert(middle =~= spec_encode(wf) + crc4);
        lemma_decode_literal(crc4);
        lemma_decode_encode_append(wf, crc4);
        assert(spec_decode(middle) == Ok::<Seq<u8>, DecodeError>(wf + crc4));
        let d = wf + crc4;
        assert(d.len() == wf.len() + 4);
        assert(wf.len() == 4 + f.data.len());
        lemma_u16_be_of(f.data.len() as u16);
        assert(d[2] == spec_u16_be(f.data.len() as u16)[0]);
        assert(d[3] == spec_u16_be(f.data.len() as u16)[1]);
        let cmd_len = spec_u16_of(d[2], d[3]) as int;
        assert(cmd_len == f.data.len());
        assert(d.len() == cmd_len + 8);
        let parsed = FrameView { sender: d[0], receiver: d[1], data: d.subrange(4, 4 + cmd_len) };
        assert(parsed.sender == f.sender);
        assert(parsed.receiver == f.receiver);
        assert(parsed.data =~= f.data);
        assert(parsed == f);
        lemma_u32_be_of(crc);
        assert(d[4 + cmd_len] == crc4[0]);
        assert(d[5 + cmd_len] == crc4[1]);
        assert(d[6 + cmd_len] == crc4[2]);
        assert(d[7 + cmd_len] == crc4[3]);
        assert(spec_u32_of(d[4 + cmd_len], d[5 + cmd_len], d[6 + cmd_len], d[7 + cmd_len]) == crc);
        assert(spec_parse_decoded(d) == Ok::<FrameView, DeserializeError>(f));
    }
}

} // verus!
