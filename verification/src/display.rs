//! Presentation-side frame store: a frame paired with its cached checksum
//! and wire length, the per-connection store of sent and received frames,
//! and the fixed-width text fields a renderer lays out.

use vstd::prelude::*;
use vstd::string::StrSliceExecFns;
use vstd::string::StringExecFns;

use crate::frame::Frame;
use crate::frame::spec_crc32;
use crate::frame::spec_serialize;
use crate::session::DeviceHandle;

verus! {

/// The sixteen hexadecimal digit characters, in value order; the first ten
/// double as the decimal digits.
pub open spec fn spec_digit_char(d: int) -> char {
    if d == 0 {
        '0'
    } else if d == 1 {
        '1'
    } else if d == 2 {
        '2'
    } else if d == 3 {
        '3'
    } else if d == 4 {
        '4'
    } else if d == 5 {
        '5'
    } else if d == 6 {
        '6'
    } else if d == 7 {
        '7'
    } else if d == 8 {
        '8'
    } else if d == 9 {
        '9'
    } else if d == 10 {
        'a'
    } else if d == 11 {
        'b'
    } else if d == 12 {
        'c'
    } else if d == 13 {
        'd'
    } else if d == 14 {
        'e'
    } else {
        'f'
    }
}

/// `n` space characters.
pub open spec fn spec_spaces(n: nat) -> Seq<char> {
    Seq::new(n, |i: int| ' ')
}

/// A checksum as eight zero-padded lower-case hex digits, or eight spaces
/// when there is none.
pub open spec fn spec_format_crc32(crc: Option<u32>) -> Seq<char> {
    match crc {
        Some(n) => seq![
            spec_digit_char(((n / 0x10000000) % 16) as int),
            spec_digit_char(((n / 0x1000000) % 16) as int),
            spec_digit_char(((n / 0x100000) % 16) as int),
            spec_digit_char(((n / 0x10000) % 16) as int),
            spec_digit_char(((n / 0x1000) % 16) as int),
            spec_digit_char(((n / 0x100) % 16) as int),
            spec_digit_char(((n / 16) % 16) as int),
            spec_digit_char((n % 16) as int),
        ],
        None => spec_spaces(8),
    }
}

/// The decimal digits of `n`, most significant first.
pub open spec fn spec_decimal(n: nat) -> Seq<char>
    decreases n,
{
    if n < 10 {
        seq![spec_digit_char(n as int)]
    } else {
        spec_decimal(n / 10) + seq![spec_digit_char((n % 10) as int)]
    }
}

/// A length as decimal digits left-aligned in a field of four characters
/// (wider numbers keep all their digits), or four spaces when there is none.
pub open spec fn spec_format_length(len: Option<usize>) -> Seq<char> {
    match len {
        Some(n) => spec_decimal(n as nat) + spec_spaces(
            if n < 10 {
                3nat
            } else if n < 100 {
                2nat
            } else if n < 1000 {
                1nat
            } else {
                0nat
            },
        ),
        None => spec_spaces(4),
    }
}

/// A name fitted to a field of `space0` characters (at least three): a name
/// that overflows is cut to two characters less and finished with two dots,
/// a shorter one is padded with spaces.
pub open spec fn spec_format_name(s: Seq<char>, space0: nat) -> Seq<char> {
    let space = if space0 < 3 {
        3nat
    } else {
        space0
    };
    if s.len() > space {
        s.subrange(0, space - 2) + seq!['.', '.']
    } else {
        s + spec_spaces((space - s.len()) as nat)
    }
}

/// Appends the character for hex digit `d` to `s`.
fn push_digit_char(s: &mut String, d: u8)
    requires
        d < 16,
    ensures
        final(s)@ == old(s)@ + seq![spec_digit_char(d as int)],
{
    if d == 0 {
        proof {
            reveal_strlit("0");
        }
        s.append("0");
    } else if d == 1 {
        proof {
            reveal_strlit("1");
        }
        s.append("1");
    } else if d == 2 {
        proof {
            reveal_strlit("2");
        }
        s.append("2");
    } else if d == 3 {
        proof {
            reveal_strlit("3");
        }
        s.append("3");
    } else if d == 4 {
        proof {
            reveal_strlit("4");
        }
        s.append("4");
    } else if d == 5 {
        proof {
            reveal_strlit("5");
        }
        s.append("5");
    } else if d == 6 {
        proof {
            reveal_strlit("6");
        }
        s.append("6");
    } else if d == 7 {
        proof {
            reveal_strlit("7");
        }
        s.append("7");
    } else if d == 8 {
        proof {
            reveal_strlit("8");
        }
        s.append("8");
    } else if d == 9 {
        proof {
            reveal_strlit("9");
        }
        s.append("9");
    } else if d == 10 {
        proof {
            reveal_strlit("a");
        }
        s.append("a");
    } else if d == 11 {
        proof {
            reveal_strlit("b");
        }
        s.append("b");
    } else if d == 12 {
        proof {
            reveal_strlit("c");
        }
        s.append("c");
    } else if d == 13 {
        proof {
            reveal_strlit("d");
        }
        s.append("d");
    } else if d == 14 {
        proof {
            reveal_strlit("e");
        }
        s.append("e");
    } else {
        proof {
            reveal_strlit("f");
        }
        s.append("f");
    }
    proof {
        assert(s@ =~= old(s)@ + seq![spec_digit_char(d as int)]);
    }
}

/// Appends the decimal digits of `n` to `s`, most significant first.
fn push_decimal(s: &mut String, n: usize)
    ensures
        final(s)@ == old(s)@ + spec_decimal(n as nat),
    decreases n,
{
    if n >= 10 {
        push_decimal(s, n / 10);
        push_digit_char(s, (n % 10) as u8);
        proof {
            assert(s@ =~= old(s)@ + spec_decimal(n as nat));
        }
    } else {
        push_digit_char(s, n as u8);
    }
}

/// Appends `count` spaces to `s`.
fn push_spaces(s: &mut String, count: usize)
    ensures
        final(s)@ == old(s)@ + spec_spaces(count as nat),
{
    let mut i: usize = 0;
    while i < count
        invariant
            i <= count,
            s@ =~= old(s)@ + spec_spaces(i as nat),
        decreases count - i,
    {
        proof {
            reveal_strlit(" ");
        }
        s.append(" ");
        proof {
            assert(spec_spaces((i + 1) as nat) =~= spec_spaces(i as nat).push(' '));
        }
        i = i + 1;
    }
    proof {
        assert(s@ =~= old(s)@ + spec_spaces(count as nat));
    }
}

/// A frame together with its checksum and serialized length, computed once
/// at construction; either is absent when the payload is too long to
/// serialize.
pub struct DrawableFrame {
    inner: Frame,
    crc32: Option<u32>,
    frame_length: Option<usize>,
}

impl DrawableFrame {
    /// The cached values agree with the wrapped frame.
    pub closed spec fn wf(&self) -> bool {
        &&& if self.inner@.data.len() <= u16::MAX {
            self.crc32 == Some(spec_crc32(self.inner@))
        } else {
            self.crc32 is None
        }
        &&& if self.inner@.data.len() <= u16::MAX {
            self.frame_length == Some(spec_serialize(self.inner@).len() as usize)
        } else {
            self.frame_length is None
        }
    }

    /// The wrapped frame.
    pub closed spec fn spec_frame(&self) -> Frame {
        self.inner
    }

    pub fn frame(&self) -> (f: &Frame)
        ensures
            *f == self.spec_frame(),
    {
        &self.inner
    }

    /// The cached checksum: present exactly when the payload fits the wire
    /// format's length field.
    pub fn crc32(&self) -> (r: Option<u32>)
        requires
            self.wf(),
        ensures
            self.spec_frame()@.data.len() <= u16::MAX ==> r == Some(spec_crc32(self.spec_frame()@)),
            self.spec_frame()@.data.len() > u16::MAX ==> r is None,
    {
        self.crc32
    }

    /// The cached length of the serialized wire form, escaping included:
    /// present exactly when the payload fits the length field.
    pub fn frame_length(&self) -> (r: Option<usize>)
        requires
            self.wf(),
        ensures
            self.spec_frame()@.data.len() <= u16::MAX ==> r == Some(
                spec_serialize(self.spec_frame()@).len() as usize,
            ),
            self.spec_frame()@.data.len() > u16::MAX ==> r is None,
    {
        self.frame_length
    }

    /// Renders a checksum as eight zero-padded lower-case hex digits, or
    /// eight spaces when there is none.
    pub fn format_crc32(crc: Option<u32>) -> (s: String)
        ensures
            s@ == spec_format_crc32(crc),
    {
        let mut s = String::new();
        match crc {
            Some(n) => {
                push_digit_char(&mut s, ((n / 0x10000000) % 16) as u8);
                push_digit_char(&mut s, ((n / 0x1000000) % 16) as u8);
                push_digit_char(&mut s, ((n / 0x100000) % 16) as u8);
                push_digit_char(&mut s, ((n / 0x10000) % 16) as u8);
                push_digit_char(&mut s, ((n / 0x1000) % 16) as u8);
                push_digit_char(&mut s, ((n / 0x100) % 16) as u8);
                push_digit_char(&mut s, ((n / 16) % 16) as u8);
                push_digit_char(&mut s, (n % 16) as u8);
                proof {
                    assert(s@ =~= spec_format_crc32(crc));
                }
            },
            None => {
                push_spaces(&mut s, 8);
                proof {
                    assert(s@ =~= spec_spaces(8));
                }
            },
        }
        s
    }

    /// Renders a length as decimal digits left-aligned in a field of four
    /// characters, or four spaces when there is none.
    pub fn format_length(len: Option<usize>) -> (s: String)
        ensures
            s@ == spec_format_length(len),
    {
        let mut s = String::new();
        match len {
            Some(n) => {
                push_decimal(&mut s, n);
                if n < 10 {
                    push_spaces(&mut s, 3);
                } else if n < 100 {
                    push_spaces(&mut s, 2);
                } else if n < 1000 {
                    push_spaces(&mut s, 1);
                }
                proof {
                    assert(s@ =~= spec_format_length(len));
                }
            },
            None => {
                push_spaces(&mut s, 4);
                proof {
                    assert(s@ =~= spec_spaces(4));
                }
            },
        }
        s
    }

    /// Fits a name to a field of `space` characters (at least three):
    /// an overflowing name is cut short and finished with two dots, a
    /// shorter one is padded with spaces.
    pub fn format_name(name: &str, space: usize) -> (s: String)
        ensures
            s@ == spec_format_name(name@, space as nat),
    {
        let space = if space < 3 {
            3
        } else {
            space
        };
        let len = name.unicode_len();
        if len > space {
            let prefix = name.substring_char(0, space - 2);
            let mut s = String::from_str(prefix);
            proof {
                reveal_strlit("..");
            }
            s.append("..");
            proof {
                assert(".."@ =~= seq!['.', '.']);
                assert(s@ =~= spec_format_name(name@, space as nat));
            }
            s
        } else {
            let mut s = String::from_str(name);
            push_spaces(&mut s, space - len);
            proof {
                assert(s@ =~= spec_format_name(name@, space as nat));
            }
            s
        }
    }
}

impl From<Frame> for DrawableFrame {
    /// Wraps a frame, caching its checksum and serialized length.
    fn from(value: Frame) -> (r: DrawableFrame)
        ensures
            r.wf(),
            r.spec_frame() == value,
    {
        let crc32 = match value.calculate_crc32() {
            Ok(c) => Some(c),
            Err(_) => None,
        };
        let frame_length = match value.serialize() {
            Ok(v) => Some(v.len()),
            Err(_) => None,
        };
        DrawableFrame { inner: value, crc32, frame_length }
    }
}

impl vstd::std_specs::convert::FromSpecImpl<Frame> for DrawableFrame {
    open spec fn obeys_from_spec() -> bool {
        true
    }

    closed spec fn from_spec(t: Frame) -> DrawableFrame {
        DrawableFrame {
            inner: t,
            crc32: if t@.data.len() <= u16::MAX {
                Some(spec_crc32(t@))
            } else {
                None
            },
            frame_length: if t@.data.len() <= u16::MAX {
                Some(spec_serialize(t@).len() as usize)
            } else {
                None
            },
        }
    }
}

/// A connected device as the presentation layer sees it: its name, the
/// command being typed, its handle, and the append-only stores of received
/// and sent frames.
pub struct Device {
    pub name: String,
    pub cmd_input: String,
    pub handle: DeviceHandle,
    pub received: Vec<DrawableFrame>,
    pub sent: Vec<DrawableFrame>,
}

impl Device {
    /// Appends one decoded frame to the received-frame store.
    pub fn push_received(&mut self, f: DrawableFrame)
        ensures
            final(self).received@ == old(self).received@.push(f),
            final(self).sent@ == old(self).sent@,
            final(self).name == old(self).name,
            final(self).cmd_input == old(self).cmd_input,
            final(self).handle == old(self).handle,
    {
        self.received.push(f);
    }

    /// Appends one successfully sent frame to the sent-frame store.
    pub fn push_sent(&mut self, f: DrawableFrame)
        ensures
            final(self).sent@ == old(self).sent@.push(f),
            final(self).received@ == old(self).received@,
            final(self).name == old(self).name,
            final(self).cmd_input == old(self).cmd_input,
            final(self).handle == old(self).handle,
    {
        self.sent.push(f);
    }
}

} // verus!
