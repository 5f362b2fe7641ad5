//! The executable decoder.

use crate::bits::lemma_lead_payload;
use crate::bits::lemma_lead_ranges;
use crate::bits::lemma_low_bits_clear;
use crate::bits::lemma_place_payload;
use crate::model::partial_fits;
use crate::model::DecoderView;
use crate::model::Utf8State;
use crate::model::REPLACEMENT;
use vstd::prelude::*;

verus! {

/// A streaming UTF-8 decoder.
///
/// Bytes go in one at a time or in batches; decoded text gathers in a buffer
/// until it is taken. The character in progress survives a take, so input
/// may be cut anywhere.
pub struct Utf8Decoder {
    machine: Machine,
    result: String,
}

/// The state machine inside the decoder: where it stands within a character
/// and the value assembled so far.
struct Machine {
    state: Utf8State,
    partial: u32,
}

impl Machine {
    #[verifier::type_invariant]
    spec fn inv(&self) -> bool {
        partial_fits(self.state, self.partial as nat)
    }
}

impl View for Utf8Decoder {
    type V = DecoderView;

    closed spec fn view(&self) -> DecoderView {
        DecoderView {
            state: self.machine.state,
            partial: self.machine.partial as nat,
            output: self.result@,
        }
    }
}

impl Utf8Decoder {
    /// Makes a decoder that stands between characters and holds no text.
    /// `capacity` is a hint: the number of characters expected, for which
    /// room is set aside at once. It must not exceed `isize::MAX`, the most
    /// that can be reserved.
    pub fn new(capacity: usize) -> (decoder: Utf8Decoder)
        requires
            capacity <= isize::MAX,
        ensures
            decoder@ == DecoderView::initial(),
    {
        Utf8Decoder {
            result: String::with_capacity(capacity),
            machine: Machine { state: Utf8State::Start, partial: 0 },
        }
    }

    /// Feeds one byte. The result says whether more input is welcome, which
    /// it always is: malformed input is replaced, never refused.
    pub fn write_byte(&mut self, byte: &u8) -> (go_on: bool)
        ensures
            final(self)@ == old(self)@.feed(*byte),
            final(self)@.wf(),
            go_on,
    {
        let b: u8 = *byte;
        proof {
            use_type_invariant(&self.machine);
            lemma_lead_ranges(b);
            lemma_lead_payload(b);
            lemma_low_bits_clear(self.machine.partial);
            lemma_place_payload(self.machine.partial, b);
        }
        // On the way into a character the state is set before the partial
        // value, on the way out after it: the value assembled for a state
        // fits that state and the ones after it, not the ones before.
        match self.machine.state {
            Utf8State::Start => {
                if b < 0x80 {
                    self.result.push(b as char);
                } else if (b & 0xe0) == 0xc0 {
                    self.machine.state = Utf8State::Shift0;
                    self.machine.partial = (b as u32 & 0x1f) << 6;
                } else if (b & 0xf0) == 0xe0 {
                    self.machine.state = Utf8State::Shift6;
                    self.machine.partial = (b as u32 & 0x0f) << 12;
                } else if (b & 0xf8) == 0xf0 && b <= 0xf4 {
                    self.machine.state = Utf8State::Shift12;
                    self.machine.partial = (b as u32 & 0x07) << 18;
                } else {
                    self.result.push(REPLACEMENT);
                }
            },
            Utf8State::Shift12 => {
                self.machine.state = Utf8State::Shift6;
                self.machine.partial |= (b as u32 & 0x3f) << 12;
            },
            Utf8State::Shift6 => {
                self.machine.state = Utf8State::Shift0;
                self.machine.partial |= (b as u32 & 0x3f) << 6;
            },
            Utf8State::Shift0 => {
                let value: u32 = self.machine.partial | (b as u32 & 0x3f);
                self.machine.partial = 0;
                self.machine.state = Utf8State::Start;
                let c: char = match char::from_u32(value) {
                    Some(c) => c,
                    None => REPLACEMENT,
                };
                self.result.push(c);
            },
        }
        true
    }

    /// Feeds a batch of bytes, one by one and in order.
    pub fn write_bytes(&mut self, bytes: &[u8])
        ensures
            final(self)@ == old(self)@.feed_all(bytes@),
            final(self)@.wf(),
    {
        for i in 0..bytes.len()
            invariant
                self@ == old(self)@.feed_all(bytes@.take(i as int)),
        {
            assert(bytes@.take(i + 1).drop_last() == bytes@.take(i as int));
            self.write_byte(&bytes[i]);
        }
        proof {
            use_type_invariant(&self.machine);
            assert(bytes@.take(bytes.len() as int) == bytes@);
        }
    }

    /// Takes the text decoded since the last take, or `None` where there is
    /// none. The character in progress, if any, stays as it is and is
    /// finished by the bytes that follow.
    pub fn get_string(&mut self) -> (text: Option<String>)
        ensures
            final(self)@ == old(self)@.drained(),
            final(self)@.wf(),
            match text {
                Some(s) => old(self)@.held() == Some(s@),
                None => old(self)@.held() is None,
            },
    {
        proof {
            use_type_invariant(&self.machine);
        }
        if !self.result.as_str().is_empty() {
            let mut text = String::new();
            core::mem::swap(&mut self.result, &mut text);
            Some(text)
        } else {
            assert(self.result@ == Seq::<char>::empty());
            None
        }
    }

    /// Takes the binary output, of which a text decoder has none: the result
    /// is always `None` and the decoder stays as it is.
    pub fn get_bytes(&mut self) -> (bytes: Option<Box<[u8]>>)
        ensures
            bytes is None,
            final(self)@ == old(self)@,
            final(self)@.wf(),
    {
        proof {
            use_type_invariant(&self.machine);
        }
        None
    }

    /// Makes a decoder as [`Utf8Decoder::new`] does, on the heap.
    pub fn get_utf8(capacity: usize) -> (decoder: Box<Utf8Decoder>)
        requires
            capacity <= isize::MAX,
        ensures
            decoder@ == DecoderView::initial(),
    {
        Box::new(Utf8Decoder::new(capacity))
    }
}

} // verus!
