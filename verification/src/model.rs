//! The decoder as a mathematical object.
//!
//! A decoder is a small state machine plus the text it has produced. The
//! machine remembers how many continuation bytes the character in progress
//! still lacks and the value assembled from the bytes seen so far.

use vstd::prelude::*;

verus! {

/// Where the decoder stands within a character. The shift states are named
/// after the number of bits by which the payload of the next byte is moved
/// to the left.
#[derive(Clone, Copy, Debug, PartialEq, Eq)]
pub enum Utf8State {
    /// Between characters: the next byte starts a new one.
    Start,
    /// Three continuation bytes are missing.
    Shift12,
    /// Two continuation bytes are missing.
    Shift6,
    /// One continuation byte is missing.
    Shift0,
}

/// What is written in place of a byte or a sequence that decodes to nothing.
pub const REPLACEMENT: char = '\u{FFFD}';

/// Whether `value` is a Unicode scalar value: at most `0x10FFFF` and no
/// surrogate.
pub open spec fn is_scalar_value(value: nat) -> bool {
    value <= 0xD7FF || 0xE000 <= value <= 0x10FFFF
}

/// The character that a finished sequence yields: the assembled value itself
/// where it is a scalar value, the replacement character where it is not.
pub open spec fn scalar_or_replacement(value: nat) -> char {
    if is_scalar_value(value) {
        value as char
    } else {
        REPLACEMENT
    }
}

/// The six payload bits of a byte read as a continuation byte. The two top
/// bits are not looked at.
pub open spec fn payload(byte: u8) -> nat {
    (byte % 0x40) as nat
}

/// Whether `partial` can be the value assembled when the decoder stands in
/// `state`. Between characters it is zero. Within a character it holds only
/// the bits placed so far: the bits still to come are zero, and the greatest
/// lead byte, `0xF4`, bounds it.
pub open spec fn partial_fits(state: Utf8State, partial: nat) -> bool {
    match state {
        Utf8State::Start => partial == 0,
        Utf8State::Shift12 => partial % 0x40000 == 0 && partial <= 0x100000,
        Utf8State::Shift6 => partial % 0x1000 == 0 && partial <= 0x13F000,
        Utf8State::Shift0 => partial % 0x40 == 0 && partial <= 0x13FFC0,
    }
}

/// The abstract value of a decoder.
pub struct DecoderView {
    /// Position within the character in progress.
    pub state: Utf8State,
    /// The value assembled so far; zero between characters.
    pub partial: nat,
    /// The text decoded and not yet taken.
    pub output: Seq<char>,
}

impl DecoderView {
    /// A fresh decoder: between characters, nothing decoded.
    pub open spec fn initial() -> DecoderView {
        DecoderView { state: Utf8State::Start, partial: 0, output: Seq::empty() }
    }

    /// The values that a decoder can take: those whose partial value fits
    /// their state. Every decoder is well formed at all times.
    pub open spec fn wf(self) -> bool {
        partial_fits(self.state, self.partial)
    }

    /// Whether the decoder stands between two characters.
    pub open spec fn at_rest(self) -> bool {
        self.state == Utf8State::Start && self.partial == 0
    }

    /// The decoder after it has finished a character with `c`.
    pub open spec fn emit(self, c: char) -> DecoderView {
        DecoderView { state: Utf8State::Start, partial: 0, output: self.output.push(c) }
    }

    /// The decoder waiting in `state` with `partial` assembled.
    pub open spec fn expect(self, state: Utf8State, partial: nat) -> DecoderView {
        DecoderView { state, partial, output: self.output }
    }

    /// The decoder after one more byte.
    ///
    /// Between characters the byte is classified by its value: below `0x80`
    /// it is a character by itself; `0xC0..=0xDF`, `0xE0..=0xEF` and
    /// `0xF0..=0xF4` open a sequence of two, three and four bytes; every
    /// other byte is replaced. Within a character every byte gives its low
    /// six bits, whatever its top bits are, and the last one finishes the
    /// character.
    pub open spec fn feed(self, byte: u8) -> DecoderView {
        match self.state {
            Utf8State::Start => {
                if byte < 0x80 {
                    self.emit(byte as char)
                } else if 0xC0 <= byte <= 0xDF {
                    self.expect(Utf8State::Shift0, ((byte - 0xC0) * 0x40) as nat)
                } else if 0xE0 <= byte <= 0xEF {
                    self.expect(Utf8State::Shift6, ((byte - 0xE0) * 0x1000) as nat)
                } else if 0xF0 <= byte <= 0xF4 {
                    self.expect(Utf8State::Shift12, ((byte - 0xF0) * 0x40000) as nat)
                } else {
                    self.emit(REPLACEMENT)
                }
            },
            Utf8State::Shift12 => {
                self.expect(Utf8State::Shift6, self.partial + payload(byte) * 0x1000)
            },
            Utf8State::Shift6 => {
                self.expect(Utf8State::Shift0, self.partial + payload(byte) * 0x40)
            },
            Utf8State::Shift0 => {
                self.emit(scalar_or_replacement(self.partial + payload(byte)))
            },
        }
    }

    /// The decoder after a run of bytes, fed one by one in order.
    pub open spec fn feed_all(self, bytes: Seq<u8>) -> DecoderView
        decreases bytes.len(),
    {
        if bytes.len() == 0 {
            self
        } else {
            self.feed_all(bytes.drop_last()).feed(bytes.last())
        }
    }

    /// What taking the text hands out: the text held, or nothing where none
    /// is held.
    pub open spec fn held(self) -> Option<Seq<char>> {
        if self.output.len() == 0 {
            None
        } else {
            Some(self.output)
        }
    }

    /// The decoder after its text has been taken: the text is empty, the
    /// character in progress is untouched.
    pub open spec fn drained(self) -> DecoderView {
        DecoderView { state: self.state, partial: self.partial, output: Seq::empty() }
    }
}

/// The text that a fresh decoder yields for `bytes`.
pub open spec fn decode(bytes: Seq<u8>) -> Seq<char> {
    DecoderView::initial().feed_all(bytes).output
}

} // verus!
