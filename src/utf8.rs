//! A table-driven UTF-8 decoder that substitutes one U+FFFD for each
//! maximal subpart of an invalid sequence.
use vstd::prelude::*;
use vstd::utf8::{char_u32_cast, is_scalar};

verus! {

/// States of the decoder: what it expects of the next byte.
#[allow(non_camel_case_types)]
#[derive(Debug, Clone, Copy, PartialEq, Eq, Structural)]
pub enum State {
    /// Between code points.
    Ground,
    /// Three continuation bytes to come.
    Tail3,
    /// Two continuation bytes to come.
    Tail2,
    /// One continuation byte to come.
    Tail1,
    /// After `0xE0`: expects `0xA0..=0xBF`.
    U3_2_e0,
    /// After `0xED`: expects `0x80..=0x9F`.
    U3_2_ed,
    /// After `0xF0`: expects `0x90..=0xBF`.
    Utf8_4_3_f0,
    /// After `0xF4`: expects `0x80..=0x8F`.
    Utf8_4_3_f4,
}

/// Actions of the decoder.
#[derive(Debug, Clone, Copy, PartialEq, Eq, Structural)]
pub enum Action {
    /// The byte cannot begin a sequence.
    InvalidByte,
    /// The byte does not continue the pending sequence and must be processed
    /// again on its own.
    InvalidContinuation,
    /// A one-byte sequence.
    EmitByte,
    SetByte1,
    SetByte2,
    SetByte2Top,
    SetByte3,
    SetByte3Top,
    SetByte4,
}

/// What one byte produced.
#[derive(Debug, Clone, Copy, PartialEq, Eq, Structural)]
pub enum Decoded {
    /// The sequence goes on.
    Incomplete,
    /// A code point was completed.
    Codepoint(char),
    /// An invalid sequence ended; it stands for one U+FFFD.
    Invalid,
}

/// The abstract state of a decoder.
pub struct Utf8Model {
    pub state: State,
    /// The bits of the code point gathered so far.
    pub point: u32,
}

/// The transition of the decoder from `state` on `byte`.
pub open spec fn utf8_transition(state: State, byte: u8) -> (State, Action) {
    let invalid = (State::Ground, Action::InvalidContinuation);
    match state {
        State::Ground => {
            if byte <= 0x7f {
                (State::Ground, Action::EmitByte)
            } else if 0xc2 <= byte && byte <= 0xdf {
                (State::Tail1, Action::SetByte2Top)
            } else if byte == 0xe0 {
                (State::U3_2_e0, Action::SetByte3Top)
            } else if (0xe1 <= byte && byte <= 0xec) || byte == 0xee || byte == 0xef {
                (State::Tail2, Action::SetByte3Top)
            } else if byte == 0xed {
                (State::U3_2_ed, Action::SetByte3Top)
            } else if byte == 0xf0 {
                (State::Utf8_4_3_f0, Action::SetByte4)
            } else if 0xf1 <= byte && byte <= 0xf3 {
                (State::Tail3, Action::SetByte4)
            } else if byte == 0xf4 {
                (State::Utf8_4_3_f4, Action::SetByte4)
            } else {
                (State::Ground, Action::InvalidByte)
            }
        },
        State::U3_2_e0 => if 0xa0 <= byte && byte <= 0xbf {
            (State::Tail1, Action::SetByte2)
        } else {
            invalid
        },
        State::U3_2_ed => if 0x80 <= byte && byte <= 0x9f {
            (State::Tail1, Action::SetByte2)
        } else {
            invalid
        },
        State::Utf8_4_3_f0 => if 0x90 <= byte && byte <= 0xbf {
            (State::Tail2, Action::SetByte3)
        } else {
            invalid
        },
        State::Utf8_4_3_f4 => if 0x80 <= byte && byte <= 0x8f {
            (State::Tail2, Action::SetByte3)
        } else {
            invalid
        },
        State::Tail3 => if 0x80 <= byte && byte <= 0xbf {
            (State::Tail2, Action::SetByte3)
        } else {
            invalid
        },
        State::Tail2 => if 0x80 <= byte && byte <= 0xbf {
            (State::Tail1, Action::SetByte2)
        } else {
            invalid
        },
        State::Tail1 => if 0x80 <= byte && byte <= 0xbf {
            (State::Ground, Action::SetByte1)
        } else {
            invalid
        },
    }
}

/// The character of a code point, or U+FFFD where it is not a Unicode
/// scalar value.
pub open spec fn char_of_point(point: u32) -> char {
    if is_scalar(point) {
        point as char
    } else {
        '\u{FFFD}'
    }
}

/// One step of the decoder: the next model, what the byte produced, and
/// whether the byte was consumed.
pub open spec fn utf8_step(m: Utf8Model, byte: u8) -> (Utf8Model, Decoded, bool) {
    let (next, action) = utf8_transition(m.state, byte);
    match action {
        Action::InvalidByte => (Utf8Model { state: next, point: 0 }, Decoded::Invalid, true),
        Action::InvalidContinuation => (
            Utf8Model { state: next, point: 0 },
            Decoded::Invalid,
            false,
        ),
        Action::EmitByte => (
            Utf8Model { state: next, point: m.point },
            Decoded::Codepoint(byte as char),
            true,
        ),
        Action::SetByte1 => (
            Utf8Model { state: next, point: 0 },
            Decoded::Codepoint(char_of_point(m.point | ((byte & 0x3f) as u32))),
            true,
        ),
        Action::SetByte2 => (
            Utf8Model { state: next, point: m.point | (((byte & 0x3f) as u32) << 6u32) },
            Decoded::Incomplete,
            true,
        ),
        Action::SetByte2Top => (
            Utf8Model { state: next, point: m.point | (((byte & 0x1f) as u32) << 6u32) },
            Decoded::Incomplete,
            true,
        ),
        Action::SetByte3 => (
            Utf8Model { state: next, point: m.point | (((byte & 0x3f) as u32) << 12u32) },
            Decoded::Incomplete,
            true,
        ),
        Action::SetByte3Top => (
            Utf8Model { state: next, point: m.point | (((byte & 0x0f) as u32) << 12u32) },
            Decoded::Incomplete,
            true,
        ),
        Action::SetByte4 => (
            Utf8Model { state: next, point: m.point | (((byte & 0x07) as u32) << 18u32) },
            Decoded::Incomplete,
            true,
        ),
    }
}

/// The model of a decoder between code points.
pub open spec fn ground_model() -> Utf8Model {
    Utf8Model { state: State::Ground, point: 0 }
}

/// Well-formed decoders hold no bits between code points.
pub open spec fn utf8_wf(m: Utf8Model) -> bool {
    m.state == State::Ground ==> m.point == 0
}

/// Receives the code points and invalid sequences that a decoder reports.
pub trait Receiver {
    /// Called whenever a code point is decoded.
    fn codepoint(&mut self, c: char);

    /// Called whenever an invalid sequence is detected.
    fn invalid_sequence(&mut self);
}

/// Relies on `char::from_u32`: `Some` exactly for Unicode scalar values,
/// holding that value.
#[verifier::external_body]
fn scalar_char(point: u32) -> (r: Option<char>)
    ensures
        r.is_some() <==> is_scalar(point),
        r.is_some() ==> r.unwrap() as u32 == point,
{
    char::from_u32(point)
}

/// A UTF-8 decoder fed one byte at a time.
#[derive(Debug, Clone, Copy)]
pub struct Parser {
    point: u32,
    state: State,
}

impl View for Parser {
    type V = Utf8Model;

    closed spec fn view(&self) -> Utf8Model {
        Utf8Model { state: self.state, point: self.point }
    }
}

impl Parser {
    /// Creates a decoder between code points.
    pub fn new() -> (r: Parser)
        ensures
            r@ == ground_model(),
    {
        Parser { point: 0, state: State::Ground }
    }

    /// Whether the decoder is between code points.
    pub fn is_ground(&self) -> (r: bool)
        ensures
            r == (self@.state == State::Ground),
    {
        match self.state {
            State::Ground => true,
            _ => false,
        }
    }

    /// Decodes one byte.
    pub fn decode(&mut self, byte: u8) -> (r: (Decoded, bool))
        ensures
            (final(self)@, r.0, r.1) == utf8_step(old(self)@, byte),
    {
        let (next, action) = transition(self.state, byte);
        let out = match action {
            Action::InvalidByte | Action::InvalidContinuation => {
                self.point = 0;
                Decoded::Invalid
            },
            Action::EmitByte => Decoded::Codepoint(byte as char),
            Action::SetByte1 => {
                let point = self.point | ((byte & 0x3f) as u32);
                self.point = 0;
                let c = match scalar_char(point) {
                    Some(c) => {
                        proof {
                            char_u32_cast(c, point);
                        }
                        c
                    },
                    None => '\u{FFFD}',
                };
                Decoded::Codepoint(c)
            },
            Action::SetByte2 => {
                self.point = self.point | (((byte & 0x3f) as u32) << 6u32);
                Decoded::Incomplete
            },
            Action::SetByte2Top => {
                self.point = self.point | (((byte & 0x1f) as u32) << 6u32);
                Decoded::Incomplete
            },
            Action::SetByte3 => {
                self.point = self.point | (((byte & 0x3f) as u32) << 12u32);
                Decoded::Incomplete
            },
            Action::SetByte3Top => {
                self.point = self.point | (((byte & 0x0f) as u32) << 12u32);
                Decoded::Incomplete
            },
            Action::SetByte4 => {
                self.point = self.point | (((byte & 0x07) as u32) << 18u32);
                Decoded::Incomplete
            },
        };
        self.state = next;
        let consumed = match action {
            Action::InvalidContinuation => false,
            _ => true,
        };
        (out, consumed)
    }

    /// Advances the decoder by one byte, reporting to `receiver` a completed
    /// code point or an invalid sequence.
    ///
    /// Returns false exactly when the byte did not continue the pending
    /// sequence and must be processed again as an independent byte.
    pub fn advance<R: Receiver>(&mut self, receiver: &mut R, byte: u8) -> (consumed: bool)
        ensures
            final(self)@ == utf8_step(old(self)@, byte).0,
            consumed == utf8_step(old(self)@, byte).2,
    {
        let (out, consumed) = self.decode(byte);
        match out {
            Decoded::Codepoint(c) => receiver.codepoint(c),
            Decoded::Invalid => receiver.invalid_sequence(),
            Decoded::Incomplete => {},
        }
        consumed
    }

    /// Ends the input: returns to ground and tells whether a sequence was
    /// left incomplete.
    pub fn finish(&mut self) -> (incomplete: bool)
        ensures
            final(self)@ == ground_model(),
            incomplete == (old(self)@.state != State::Ground),
    {
        let incomplete = !self.is_ground();
        self.state = State::Ground;
        self.point = 0;
        incomplete
    }

    /// Informs the decoder that the input has ended; an incomplete sequence
    /// is reported to `receiver` as invalid.
    pub fn end<R: Receiver>(&mut self, receiver: &mut R)
        ensures
            final(self)@ == ground_model(),
    {
        if self.finish() {
            receiver.invalid_sequence();
        }
    }
}

/// Looks up the transition of the decoder.
pub fn transition(state: State, byte: u8) -> (r: (State, Action))
    ensures
        r == utf8_transition(state, byte),
{
    let invalid = (State::Ground, Action::InvalidContinuation);
    match state {
        State::Ground => {
            if byte <= 0x7f {
                (State::Ground, Action::EmitByte)
            } else if 0xc2 <= byte && byte <= 0xdf {
                (State::Tail1, Action::SetByte2Top)
            } else if byte == 0xe0 {
                (State::U3_2_e0, Action::SetByte3Top)
            } else if (0xe1 <= byte && byte <= 0xec) || byte == 0xee || byte == 0xef {
                (State::Tail2, Action::SetByte3Top)
            } else if byte == 0xed {
                (State::U3_2_ed, Action::SetByte3Top)
            } else if byte == 0xf0 {
                (State::Utf8_4_3_f0, Action::SetByte4)
            } else if 0xf1 <= byte && byte <= 0xf3 {
                (State::Tail3, Action::SetByte4)
            } else if byte == 0xf4 {
                (State::Utf8_4_3_f4, Action::SetByte4)
            } else {
                (State::Ground, Action::InvalidByte)
            }
        },
        State::U3_2_e0 => if 0xa0 <= byte && byte <= 0xbf {
            (State::Tail1, Action::SetByte2)
        } else {
            invalid
        },
        State::U3_2_ed => if 0x80 <= byte && byte <= 0x9f {
            (State::Tail1, Action::SetByte2)
        } else {
            invalid
        },
        State::Utf8_4_3_f0 => if 0x90 <= byte && byte <= 0xbf {
            (State::Tail2, Action::SetByte3)
        } else {
            invalid
        },
        State::Utf8_4_3_f4 => if 0x80 <= byte && byte <= 0x8f {
            (State::Tail2, Action::SetByte3)
        } else {
            invalid
        },
        State::Tail3 => if 0x80 <= byte && byte <= 0xbf {
            (State::Tail2, Action::SetByte3)
        } else {
            invalid
        },
        State::Tail2 => if 0x80 <= byte && byte <= 0xbf {
            (State::Tail1, Action::SetByte2)
        } else {
            invalid
        },
        State::Tail1 => if 0x80 <= byte && byte <= 0xbf {
            (State::Ground, Action::SetByte1)
        } else {
            invalid
        },
    }
}

} // verus!
