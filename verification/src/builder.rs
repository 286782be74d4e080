//! Streaming frame reassembly: recovers discrete frames from a raw,
//! possibly noisy byte stream by locating begin/end markers, tolerating
//! arbitrary chunking and resynchronizing on every begin marker.

use vstd::prelude::*;

use crate::encoding::BEGIN_FRAME_BYTE;
use crate::encoding::END_FRAME_BYTE;
use crate::frame::Frame;
use crate::frame::FrameView;
use crate::frame::spec_deserialize;

verus! {

/// Ceiling on the reassembly buffer: a runaway frame is abandoned silently
/// once the buffer reaches this many bytes.
pub const FRAME_MAX_LEN: usize = 1280;

/// What one incoming byte does to the reassembly buffer, and the frame it
/// completes, if any:
/// - a begin marker discards the buffer and starts a fresh one holding it;
/// - an end marker, with a non-empty ("armed") buffer, completes it: the
///   buffer plus the marker is deserialized, the buffer is cleared either
///   way, and only a successful parse yields a frame; with an empty buffer
///   it is ignored;
/// - any other byte is appended when armed and ignored when not, and a
///   buffer that reaches `FRAME_MAX_LEN` is cleared.
pub open spec fn spec_push_byte(buf: Seq<u8>, byte: u8) -> (Seq<u8>, Option<FrameView>) {
    if byte == BEGIN_FRAME_BYTE {
        (seq![byte], None)
    } else if byte == END_FRAME_BYTE {
        if buf.len() > 0 {
            (
                Seq::empty(),
                match spec_deserialize(buf.push(byte)) {
                    Ok(f) => Some(f),
                    Err(_) => None,
                },
            )
        } else {
            (buf, None)
        }
    } else {
        if buf.len() > 0 {
            if buf.len() + 1 == FRAME_MAX_LEN {
                (Seq::empty(), None)
            } else {
                (buf.push(byte), None)
            }
        } else {
            (buf, None)
        }
    }
}

/// What a whole chunk of incoming bytes does: each byte applied in arrival
/// order, collecting the frames completed along the way.
pub open spec fn spec_push_bytes(buf: Seq<u8>, bytes: Seq<u8>) -> (Seq<u8>, Seq<FrameView>)
    decreases bytes.len(),
{
    if bytes.len() == 0 {
        (buf, Seq::empty())
    } else {
        let step = spec_push_byte(buf, bytes[0]);
        let rest = spec_push_bytes(step.0, bytes.drop_first());
        (
            rest.0,
            match step.1 {
                Some(f) => seq![f] + rest.1,
                None => rest.1,
            },
        )
    }
}

/// Chunking law of the reassembler: feeding a byte stream in two chunks
/// leaves the same buffer and yields the same frames, in the same order,
/// as feeding it whole — so reassembly tolerates arbitrary read-size
/// chunking without losing, duplicating or reordering frames.
pub proof fn lemma_push_bytes_append(buf: Seq<u8>, a: Seq<u8>, b: Seq<u8>)
    ensures
        spec_push_bytes(buf, a + b).0 == spec_push_bytes(spec_push_bytes(buf, a).0, b).0,
        spec_push_bytes(buf, a + b).1 == spec_push_bytes(buf, a).1 + spec_push_bytes(
            spec_push_bytes(buf, a).0,
            b,
        ).1,
    decreases a.len(),
{
    if a.len() == 0 {
        assert(a + b =~= b);
        assert(Seq::<FrameView>::empty() + spec_push_bytes(buf, b).1 =~= spec_push_bytes(
            buf,
            b,
        ).1);
    } else {
        let step = spec_push_byte(buf, a[0]);
        assert((a + b)[0] == a[0]);
        assert((a + b).drop_first() =~= a.drop_first() + b);
        lemma_push_bytes_append(step.0, a.drop_first(), b);
        let mid = spec_push_bytes(step.0, a.drop_first());
        let rest = spec_push_bytes(mid.0, b);
        match step.1 {
            Some(f) => {
                assert((seq![f] + mid.1) + rest.1 =~= seq![f] + (mid.1 + rest.1));
            },
            None => {},
        }
    }
}

/// Reassembles frames from a continuous byte stream. State persists across
/// calls, so the stream may arrive in chunks of any size; bytes before the
/// first begin marker are dropped, and a new begin marker abandons any
/// frame in progress.
pub struct FrameBuilder {
    buf: Vec<u8>,
}

impl View for FrameBuilder {
    type V = Seq<u8>;

    closed spec fn view(&self) -> Seq<u8> {
        self.buf@
    }
}

impl FrameBuilder {
    /// The buffer never reaches the ceiling between calls.
    pub open spec fn wf(&self) -> bool {
        self@.len() < FRAME_MAX_LEN
    }

    /// A fresh reassembler with an empty, unarmed buffer.
    pub fn new() -> (r: Self)
        ensures
            r@ == Seq::<u8>::empty(),
            r.wf(),
    {
        FrameBuilder { buf: Vec::new() }
    }

    /// Feeds one byte; yields the frame it completed, if any.
    pub fn push_byte(&mut self, byte: u8) -> (r: Option<Frame>)
        requires
            old(self).wf(),
        ensures
            final(self).wf(),
            final(self)@ == spec_push_byte(old(self)@, byte).0,
            match r {
                Some(f) => spec_push_byte(old(self)@, byte).1 == Some(f@),
                None => spec_push_byte(old(self)@, byte).1 is None,
            },
    {
        if byte == BEGIN_FRAME_BYTE {
            self.buf.clear();
            self.buf.push(byte);
            None
        } else if byte == END_FRAME_BYTE {
            if self.buf.len() > 0 {
                self.buf.push(byte);
                let result = Frame::deserialize(self.buf.as_slice());
                self.buf.clear();
                match result {
                    Ok(f) => Some(f),
                    Err(_) => None,
                }
            } else {
                None
            }
        } else {
            if self.buf.len() > 0 {
                self.buf.push(byte);
            }
            if self.buf.len() == FRAME_MAX_LEN {
                self.buf.clear();
            }
            None
        }
    }

    /// Feeds a chunk of bytes; yields the completed frames in arrival order.
    pub fn push_buf(&mut self, buf: &[u8]) -> (frames: Vec<Frame>)
        requires
            old(self).wf(),
        ensures
            final(self).wf(),
            final(self)@ == spec_push_bytes(old(self)@, buf@).0,
            frames@.map_values(|f: Frame| f@) == spec_push_bytes(old(self)@, buf@).1,
    {
        let mut out: Vec<Frame> = Vec::new();
        let mut i: usize = 0;
        proof {
            assert(buf@.skip(0) =~= buf@);
        }
        while i < buf.len()
            invariant
                i <= buf.len(),
                self.wf(),
                spec_push_bytes(old(self)@, buf@).0 == spec_push_bytes(
                    self@,
                    buf@.skip(i as int),
                ).0,
                spec_push_bytes(old(self)@, buf@).1 =~= out@.map_values(|f: Frame| f@)
                    + spec_push_bytes(self@, buf@.skip(i as int)).1,
            decreases buf.len() - i,
        {
            let ghost pre = self@;
            let ghost pre_out = out@;
            let b = buf[i];
            let got = self.push_byte(b);
            match got {
                Some(f) => {
                    out.push(f);
                },
                None => {},
            }
            proof {
                assert(buf@.skip(i as int).drop_first() =~= buf@.skip(i + 1));
                assert(buf@.skip(i as int)[0] == buf@[i as int]);
                let step = spec_push_byte(pre, buf@[i as int]);
                let rest = spec_push_bytes(self@, buf@.skip(i + 1));
                assert(spec_push_bytes(pre, buf@.skip(i as int)).0 == rest.0);
                match step.1 {
                    Some(fv) => {
                        assert(out@ == pre_out.push(got.unwrap()));
                        assert(out@.map_values(|f: Frame| f@) =~= pre_out.map_values(
                            |f: Frame| f@,
                        ).push(fv));
                        assert(spec_push_bytes(pre, buf@.skip(i as int)).1 == seq![fv] + rest.1);
                        assert(pre_out.map_values(|f: Frame| f@) + (seq![fv] + rest.1)
                            =~= out@.map_values(|f: Frame| f@) + rest.1);
                    },
                    None => {
                        assert(spec_push_bytes(pre, buf@.skip(i as int)).1 == rest.1);
                    },
                }
            }
            i = i + 1;
        }
        proof {
            assert(buf@.skip(buf@.len() as int) =~= Seq::<u8>::empty());
            assert(spec_push_bytes(self@, Seq::<u8>::empty()) == (
                self@,
                Seq::<FrameView>::empty(),
            ));
            assert(out@.map_values(|f: Frame| f@) + Seq::<FrameView>::empty() =~= out@.map_values(
                |f: Frame| f@,
            ));
        }
        out
    }
}

} // verus!
