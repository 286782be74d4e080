//! Byte-stuffing codec: makes the three reserved byte values (escape,
//! frame-begin, frame-end) unambiguous inside a frame body.

use vstd::prelude::*;

verus! {

/// Reserved byte announcing a two-byte escape sequence.
pub const ESCAPE_BYTE: u8 = 0x1B;

/// Reserved byte marking the start of a frame on the wire.
pub const BEGIN_FRAME_BYTE: u8 = 0x28;

/// Reserved byte marking the end of a frame on the wire.
pub const END_FRAME_BYTE: u8 = 0x29;

/// Tag standing for a literal `ESCAPE_BYTE` in an escape sequence.
pub const ESCAPE_TAG: u8 = 0x41;

/// Tag standing for a literal `BEGIN_FRAME_BYTE` in an escape sequence.
pub const BEGIN_TAG: u8 = 0x42;

/// Tag standing for a literal `END_FRAME_BYTE` in an escape sequence.
pub const END_TAG: u8 = 0x43;

/// Error raised while decoding an escaped byte stream.
#[derive(Debug, Clone, Copy, PartialEq, Eq, Structural)]
pub enum DecodeError {
    /// An escape byte was followed by a byte that is none of the three tags;
    /// carries the two offending bytes.
    InvalidEscapeSequence(u8, u8),
    /// The input ended with an escape byte and no byte after it.
    UnexpectedEOF,
}

/// True of the three byte values that cannot appear literally inside a frame body.
pub open spec fn is_reserved_byte(b: u8) -> bool {
    b == ESCAPE_BYTE || b == BEGIN_FRAME_BYTE || b == END_FRAME_BYTE
}

/// The tag that stands for reserved byte `b` in an escape sequence.
pub open spec fn tag_for(b: u8) -> u8 {
    if b == ESCAPE_BYTE {
        ESCAPE_TAG
    } else if b == BEGIN_FRAME_BYTE {
        BEGIN_TAG
    } else {
        END_TAG
    }
}

/// True of the three tag bytes that may follow an escape byte.
pub open spec fn is_tag(t: u8) -> bool {
    t == ESCAPE_TAG || t == BEGIN_TAG || t == END_TAG
}

/// The reserved byte that tag `t` stands for.
pub open spec fn reserved_for_tag(t: u8) -> u8 {
    if t == ESCAPE_TAG {
        ESCAPE_BYTE
    } else if t == BEGIN_TAG {
        BEGIN_FRAME_BYTE
    } else {
        END_FRAME_BYTE
    }
}

/// What one input byte becomes on the escaped wire.
pub open spec fn spec_encode_byte(b: u8) -> Seq<u8> {
    if is_reserved_byte(b) {
        seq![ESCAPE_BYTE, tag_for(b)]
    } else {
        seq![b]
    }
}

/// The escaped form of a whole byte sequence.
pub open spec fn spec_encode(s: Seq<u8>) -> Seq<u8>
    decreases s.len(),
{
    if s.len() == 0 {
        Seq::empty()
    } else {
        spec_encode_byte(s[0]) + spec_encode(s.drop_first())
    }
}

/// The decoded form of an escaped byte sequence, or the error the decoder
/// reports: an escape byte must be followed by exactly one tag byte.
pub open spec fn spec_decode(s: Seq<u8>) -> Result<Seq<u8>, DecodeError>
    decreases s.len(),
{
    if s.len() == 0 {
        Ok(Seq::empty())
    } else if s[0] == ESCAPE_BYTE {
        if s.len() == 1 {
            Err(DecodeError::UnexpectedEOF)
        } else if is_tag(s[1]) {
            match spec_decode(s.skip(2)) {
                Ok(rest) => Ok(seq![reserved_for_tag(s[1])] + rest),
                Err(e) => Err(e),
            }
        } else {
            Err(DecodeError::InvalidEscapeSequence(s[0], s[1]))
        }
    } else {
        match spec_decode(s.drop_first()) {
            Ok(rest) => Ok(seq![s[0]] + rest),
            Err(e) => Err(e),
        }
    }
}

/// Escapes `data`, emitting a two-byte sequence for each reserved byte and
/// every other byte unchanged.
pub fn encode(data: &[u8]) -> (out: Vec<u8>)
    ensures
        out@ == spec_encode(data@),
{
    let mut out: Vec<u8> = Vec::new();
    let mut i: usize = 0;
    proof {
        assert(data@.skip(0) =~= data@);
    }
    while i < data.len()
        invariant
            i <= data.len(),
            spec_encode(data@) =~= out@ + spec_encode(data@.skip(i as int)),
        decreases data.len() - i,
    {
        let b = data[i];
        if b == ESCAPE_BYTE {
            out.push(ESCAPE_BYTE);
            out.push(ESCAPE_TAG);
        } else if b == BEGIN_FRAME_BYTE {
            out.push(ESCAPE_BYTE);
            out.push(BEGIN_TAG);
        } else if b == END_FRAME_BYTE {
            out.push(ESCAPE_BYTE);
            out.push(END_TAG);
        } else {
            out.push(b);
        }
        proof {
            assert(data@.skip(i as int).drop_first() =~= data@.skip(i + 1));
        }
        i = i + 1;
    }
    proof {
        assert(data@.skip(data@.len() as int) =~= Seq::<u8>::empty());
    }
    out
}

/// Unescapes `data`, the inverse of `encode`; fails on a dangling escape
/// byte or an unknown tag.
pub fn decode(data: &[u8]) -> (r: Result<Vec<u8>, DecodeError>)
    ensures
        match r {
            Ok(out) => spec_decode(data@) == Ok::<Seq<u8>, DecodeError>(out@),
            Err(e) => spec_decode(data@) == Err::<Seq<u8>, DecodeError>(e),
        },
{
    let mut out: Vec<u8> = Vec::new();
    let mut i: usize = 0;
    proof {
        assert(data@.skip(0) =~= data@);
    }
    while i < data.len()
        invariant
            i <= data.len(),
            forall|rest: Seq<u8>|
                spec_decode(data@.skip(i as int)) == Ok::<Seq<u8>, DecodeError>(rest)
                    ==> spec_decode(data@) == Ok::<Seq<u8>, DecodeError>(out@ + rest),
            forall|e: DecodeError|
                spec_decode(data@.skip(i as int)) == Err::<Seq<u8>, DecodeError>(e)
                    ==> spec_decode(data@) == Err::<Seq<u8>, DecodeError>(e),
        decreases data.len() - i,
    {
        let b = data[i];
        if b == ESCAPE_BYTE {
            if i + 1 < data.len() {
                let t = data[i + 1];
                if t == ESCAPE_TAG || t == BEGIN_TAG || t == END_TAG {
                    let orig = if t == ESCAPE_TAG {
                        ESCAPE_BYTE
                    } else if t == BEGIN_TAG {
                        BEGIN_FRAME_BYTE
                    } else {
                        END_FRAME_BYTE
                    };
                    proof {
                        assert(data@.skip(i as int).skip(2) =~= data@.skip(i + 2));
                        assert forall|rest: Seq<u8>|
                            spec_decode(data@.skip(i + 2)) == Ok::<Seq<u8>, DecodeError>(rest)
                                implies spec_decode(data@) == Ok::<Seq<u8>, DecodeError>(
                            out@.push(orig) + rest,
                        ) by {
                            assert(spec_decode(data@.skip(i as int)) == Ok::<
                                Seq<u8>,
                                DecodeError,
                            >(seq![orig] + rest));
                            assert(out@ + (seq![orig] + rest) =~= out@.push(orig) + rest);
                        }
                    }
                    out.push(orig);
                    i = i + 2;
                } else {
                    return Err(DecodeError::InvalidEscapeSequence(b, t));
                }
            } else {
                assert(data@.skip(i as int).len() == 1);
                return Err(DecodeError::UnexpectedEOF);
            }
        } else {
            proof {
                assert(data@.skip(i as int).drop_first() =~= data@.skip(i + 1));
                assert forall|rest: Seq<u8>|
                    spec_decode(data@.skip(i + 1)) == Ok::<Seq<u8>, DecodeError>(rest)
                        implies spec_decode(data@) == Ok::<Seq<u8>, DecodeError>(
                    out@.push(b) + rest,
                ) by {
                    assert(spec_decode(data@.skip(i as int)) == Ok::<Seq<u8>, DecodeError>(
                        seq![b] + rest,
                    ));
                    assert(out@ + (seq![b] + rest) =~= out@.push(b) + rest);
                }
            }
            out.push(b);
            i = i + 1;
        }
    }
    proof {
        assert(data@.skip(data@.len() as int) =~= Seq::<u8>::empty());
        assert(out@ + Seq::<u8>::empty() =~= out@);
    }
    Ok(out)
}

/// Decoding what a prefix encoded picks up exactly after that prefix: the
/// escaped form of `s` followed by any `rest` decodes to `s` followed by
/// whatever `rest` decodes to, and fails exactly when decoding `rest` fails.
pub proof fn lemma_decode_encode_append(s: Seq<u8>, rest: Seq<u8>)
    ensures
        spec_decode(spec_encode(s) + rest) == match spec_decode(rest) {
            Ok(r) => Ok::<Seq<u8>, DecodeError>(s + r),
            Err(e) => Err::<Seq<u8>, DecodeError>(e),
        },
    decreases s.len(),
{
    if s.len() == 0 {
        assert(spec_encode(s) + rest =~= rest);
        match spec_decode(rest) {
            Ok(r) => {
                assert(s + r =~= r);
            },
            Err(_) => {},
        }
    } else {
        let tail = s.drop_first();
        lemma_decode_encode_append(tail, rest);
        let whole = spec_encode(s) + rest;
        if is_reserved_byte(s[0]) {
            assert(whole[0] == ESCAPE_BYTE);
            assert(whole[1] == tag_for(s[0]));
            assert(is_tag(tag_for(s[0])));
            assert(whole.skip(2) =~= spec_encode(tail) + rest);
            assert(reserved_for_tag(tag_for(s[0])) == s[0]);
            match spec_decode(rest) {
                Ok(r) => {
                    assert(seq![s[0]] + (tail + r) =~= s + r);
                },
                Err(_) => {},
            }
        } else {
            assert(whole[0] == s[0]);
            assert(whole[0] != ESCAPE_BYTE);
            assert(whole.drop_first() =~= spec_encode(tail) + rest);
            match spec_decode(rest) {
                Ok(r) => {
                    assert(seq![s[0]] + (tail + r) =~= s + r);
                },
                Err(_) => {},
            }
        }
    }
}

/// A sequence free of escape bytes decodes to itself.
pub proof fn lemma_decode_literal(s: Seq<u8>)
    requires
        forall|i: int| 0 <= i < s.len() ==> s[i] != ESCAPE_BYTE,
    ensures
        spec_decode(s) == Ok::<Seq<u8>, DecodeError>(s),
    decreases s.len(),
{
    if s.len() == 0 {
        assert(s =~= Seq::<u8>::empty());
    } else {
        assert forall|i: int| 0 <= i < s.drop_first().len() implies s.drop_first()[i]
            != ESCAPE_BYTE by {
            assert(s.drop_first()[i] == s[i + 1]);
        }
        lemma_decode_literal(s.drop_first());
        assert(seq![s[0]] + s.drop_first() =~= s);
    }
}

/// Round-trip law of the codec: decoding an encoded sequence gives the
/// sequence back, for every byte sequence.
pub proof fn lemma_decode_encode(s: Seq<u8>)
    ensures
        spec_decode(spec_encode(s)) == Ok::<Seq<u8>, DecodeError>(s),
{
    lemma_decode_encode_append(s, Seq::empty());
    assert(spec_encode(s) + Seq::<u8>::empty() =~= spec_encode(s));
    assert(s + Seq::<u8>::empty() =~= s);
}

/// Encoding is injective: two sequences with the same escaped form are the
/// same sequence.
pub proof fn lemma_encode_injective(a: Seq<u8>, b: Seq<u8>)
    requires
        spec_encode(a) == spec_encode(b),
    ensures
        a == b,
{
    lemma_decode_encode(a);
    lemma_decode_encode(b);
}

/// A sink that bytes can be escaped into or unescaped into. The library
/// implements it for `Vec<u8>`; the contracts say what lands in the sink.
pub trait Encoding {
    /// The bytes the sink holds.
    spec fn buffered(&self) -> Seq<u8>;

    /// Appends the escaped form of `data` to the sink and reports how many
    /// bytes that added.
    fn encode(&mut self, data: &[u8]) -> (written: usize)
        ensures
            final(self).buffered() == old(self).buffered() + spec_encode(data@),
            written == spec_encode(data@).len(),
    ;

    /// Appends the decoded form of `data` to the sink and reports how many
    /// input bytes were consumed; on a malformed escape the sink is unchanged.
    fn decode(&mut self, data: &[u8]) -> (r: Result<usize, DecodeError>)
        ensures
            match r {
                Ok(consumed) => {
                    &&& consumed == data@.len()
                    &&& spec_decode(data@) matches Ok(d) && final(self).buffered() == old(
                        self,
                    ).buffered() + d
                },
                Err(e) => {
                    &&& spec_decode(data@) == Err::<Seq<u8>, DecodeError>(e)
                    &&& final(self).buffered() == old(self).buffered()
                },
            },
    ;
}

impl Encoding for Vec<u8> {
    open spec fn buffered(&self) -> Seq<u8> {
        self@
    }

    fn encode(&mut self, data: &[u8]) -> (written: usize) {
        let mut encoded = encode(data);
        let n = encoded.len();
        self.append(&mut encoded);
        n
    }

    fn decode(&mut self, data: &[u8]) -> (r: Result<usize, DecodeError>) {
        match decode(data) {
            Ok(mut decoded) => {
                self.append(&mut decoded);
                Ok(data.len())
            },
            Err(e) => Err(e),
        }
    }
}

} // verus!
