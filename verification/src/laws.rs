//! Theorems about the decoder's model.
//!
//! They are stated over [`DecoderView`], so that they hold of every decoder
//! whatever it has been fed before, and are meant to be called from proofs
//! about code that uses the decoder.

use crate::bits::lemma_codepoint_is_sum;
use crate::model::decode;
use crate::model::payload;
use crate::model::scalar_or_replacement;
use crate::model::DecoderView;
use crate::model::Utf8State;
use crate::model::REPLACEMENT;
use vstd::prelude::*;
use vstd::utf8::decode_first_scalar;
use vstd::utf8::decode_utf8;
use vstd::utf8::encode_utf8;
use vstd::utf8::encode_utf8_decode_utf8;
use vstd::utf8::encode_utf8_valid_utf8;
use vstd::utf8::pop_first_scalar;
use vstd::utf8::take_first_scalar;
use vstd::utf8::valid_first_scalar;
use vstd::utf8::valid_utf8;

verus! {

/// Feeding a byte keeps the decoder well formed.
pub proof fn lemma_feed_keeps_wf(v: DecoderView, byte: u8)
    requires
        v.wf(),
    ensures
        v.feed(byte).wf(),
{
}

/// Feeding a run of bytes keeps the decoder well formed.
pub proof fn lemma_feed_all_keeps_wf(v: DecoderView, bytes: Seq<u8>)
    requires
        v.wf(),
    ensures
        v.feed_all(bytes).wf(),
    decreases bytes.len(),
{
    if bytes.len() > 0 {
        lemma_feed_all_keeps_wf(v, bytes.drop_last());
        lemma_feed_keeps_wf(v.feed_all(bytes.drop_last()), bytes.last());
    }
}

/// A batch of one byte is that byte fed alone.
pub proof fn lemma_feed_all_one(v: DecoderView, byte: u8)
    ensures
        v.feed_all(seq![byte]) == v.feed(byte),
{
    assert(seq![byte].drop_last() == Seq::<u8>::empty());
    reveal_with_fuel(DecoderView::feed_all, 2);
}

/// Input may be cut anywhere: feeding `first` and then `second` leaves the
/// decoder as feeding the two in one batch does. With
/// [`lemma_feed_all_one`] this makes byte-by-byte feeding and batch feeding
/// the same thing.
pub proof fn lemma_feed_all_concat(v: DecoderView, first: Seq<u8>, second: Seq<u8>)
    ensures
        v.feed_all(first + second) == v.feed_all(first).feed_all(second),
    decreases second.len(),
{
    if second.len() == 0 {
        assert(first + second == first);
    } else {
        lemma_feed_all_concat(v, first, second.drop_last());
        assert((first + second).drop_last() == first + second.drop_last());
    }
}

/// A batch is its bytes fed one at a time, the first byte first: feeding a
/// batch is feeding its first byte alone and then the rest.
pub proof fn lemma_feed_all_first(v: DecoderView, bytes: Seq<u8>)
    requires
        bytes.len() > 0,
    ensures
        v.feed_all(bytes) == v.feed(bytes.first()).feed_all(bytes.drop_first()),
{
    lemma_feed_all_one(v, bytes.first());
    lemma_feed_all_concat(v, seq![bytes.first()], bytes.drop_first());
    assert(bytes == seq![bytes.first()] + bytes.drop_first());
}

/// The text only grows, and what a run of bytes adds to it does not depend
/// on the text already held: the decoder ends in the same state, with the
/// same partial value and the same new text, whether or not the text was
/// taken before the run.
pub proof fn lemma_feed_all_appends(v: DecoderView, bytes: Seq<u8>)
    ensures
        v.feed_all(bytes).state == v.drained().feed_all(bytes).state,
        v.feed_all(bytes).partial == v.drained().feed_all(bytes).partial,
        v.feed_all(bytes).output == v.output + v.drained().feed_all(bytes).output,
    decreases bytes.len(),
{
    if bytes.len() == 0 {
        assert(v.output == v.output + v.drained().output);
    } else {
        lemma_feed_all_appends(v, bytes.drop_last());
        let kept = v.feed_all(bytes.drop_last());
        let taken = v.drained().feed_all(bytes.drop_last());
        assert(kept.feed(bytes.last()).output == v.output + taken.feed(bytes.last()).output);
    }
}

/// A character cut in two by taking the text is still decoded: the text
/// taken after `first` followed by the text held after `second` is the text
/// that the two runs yield with no take between them.
pub proof fn lemma_take_between_runs(v: DecoderView, first: Seq<u8>, second: Seq<u8>)
    ensures
        v.feed_all(first + second).state == v.feed_all(first).drained().feed_all(second).state,
        v.feed_all(first + second).partial == v.feed_all(first).drained().feed_all(
            second,
        ).partial,
        v.feed_all(first + second).output == v.feed_all(first).output + v.feed_all(
            first,
        ).drained().feed_all(second).output,
{
    lemma_feed_all_concat(v, first, second);
    lemma_feed_all_appends(v.feed_all(first), second);
}

/// Taking the text twice in a row: the first take hands out the text held,
/// if there is any; the second finds nothing and changes nothing.
pub proof fn lemma_take_twice(v: DecoderView)
    ensures
        v.output.len() > 0 ==> v.held() == Some(v.output),
        v.drained().held() is None,
        v.drained().drained() == v.drained(),
{
}

/// A continuation byte where a character should start is replaced on the
/// spot. Between characters, a byte in `0x80..=0xBF` yields exactly one
/// replacement character and leaves the decoder between characters, so that
/// the very next byte is read as the start of a character.
pub proof fn lemma_stray_continuation(v: DecoderView, byte: u8, rest: Seq<u8>)
    requires
        v.state == Utf8State::Start,
        0x80 <= byte <= 0xBF,
    ensures
        v.feed(byte) == v.emit(REPLACEMENT),
        v.feed(byte).at_rest(),
        v.feed(byte).output == v.output.push(REPLACEMENT),
        v.feed_all(seq![byte] + rest) == v.emit(REPLACEMENT).feed_all(rest),
{
    lemma_feed_all_first(v, seq![byte] + rest);
    assert((seq![byte] + rest).drop_first() == rest);
}

/// A lead byte above `0xF4` is replaced on the spot. Between characters, a
/// byte in `0xF5..=0xFF` yields exactly one replacement character and takes
/// none of the bytes after it as its continuation: they are read as if the
/// decoder had just been made.
pub proof fn lemma_lead_above_f4(v: DecoderView, byte: u8, rest: Seq<u8>)
    requires
        v.state == Utf8State::Start,
        byte >= 0xF5,
    ensures
        v.feed(byte) == v.emit(REPLACEMENT),
        v.feed(byte).at_rest(),
        v.feed(byte).output == v.output.push(REPLACEMENT),
        v.feed_all(seq![byte] + rest) == v.emit(REPLACEMENT).feed_all(rest),
{
    lemma_feed_all_first(v, seq![byte] + rest);
    assert((seq![byte] + rest).drop_first() == rest);
}

/// A lead byte in `0xC0..=0xDF` and the byte after it make one character,
/// whatever the second byte is: its low six bits are added to the lead's
/// payload.
pub proof fn lemma_sequence_of_two(v: DecoderView, b0: u8, b1: u8)
    requires
        v.state == Utf8State::Start,
        0xC0 <= b0 <= 0xDF,
    ensures
        v.feed_all(seq![b0, b1]) == v.emit(
            scalar_or_replacement(((b0 - 0xC0) * 0x40 + payload(b1)) as nat),
        ),
{
    lemma_feed_all_one(v, b0);
    lemma_feed_all_one(v.feed(b0), b1);
    lemma_feed_all_concat(v, seq![b0], seq![b1]);
    assert(seq![b0, b1] == seq![b0] + seq![b1]);
}

/// A lead byte in `0xE0..=0xEF` and the two bytes after it make one
/// character.
pub proof fn lemma_sequence_of_three(v: DecoderView, b0: u8, b1: u8, b2: u8)
    requires
        v.state == Utf8State::Start,
        0xE0 <= b0 <= 0xEF,
    ensures
        v.feed_all(seq![b0, b1, b2]) == v.emit(
            scalar_or_replacement(
                ((b0 - 0xE0) * 0x1000 + payload(b1) * 0x40 + payload(b2)) as nat,
            ),
        ),
{
    lemma_feed_all_one(v, b0);
    lemma_feed_all_one(v.feed(b0), b1);
    lemma_feed_all_one(v.feed(b0).feed(b1), b2);
    lemma_feed_all_concat(v, seq![b0], seq![b1]);
    lemma_feed_all_concat(v, seq![b0] + seq![b1], seq![b2]);
    assert(seq![b0, b1, b2] == seq![b0] + seq![b1] + seq![b2]);
}

/// A lead byte in `0xF0..=0xF4` and the three bytes after it make one
/// character. Where the value assembled lies above `0x10FFFF`, that
/// character is the replacement character.
pub proof fn lemma_sequence_of_four(v: DecoderView, b0: u8, b1: u8, b2: u8, b3: u8)
    requires
        v.state == Utf8State::Start,
        0xF0 <= b0 <= 0xF4,
    ensures
        v.feed_all(seq![b0, b1, b2, b3]) == v.emit(
            scalar_or_replacement(
                ((b0 - 0xF0) * 0x40000 + payload(b1) * 0x1000 + payload(b2) * 0x40 + payload(
                    b3,
                )) as nat,
            ),
        ),
{
    lemma_feed_all_one(v, b0);
    lemma_feed_all_one(v.feed(b0), b1);
    lemma_feed_all_one(v.feed(b0).feed(b1), b2);
    lemma_feed_all_one(v.feed(b0).feed(b1).feed(b2), b3);
    lemma_feed_all_concat(v, seq![b0], seq![b1]);
    lemma_feed_all_concat(v, seq![b0] + seq![b1], seq![b2]);
    lemma_feed_all_concat(v, seq![b0] + seq![b1] + seq![b2], seq![b3]);
    assert(seq![b0, b1, b2, b3] == seq![b0] + seq![b1] + seq![b2] + seq![b3]);
}

/// Where `bytes` begins with the well-formed encoding of a scalar value, the
/// decoder turns that encoding into that scalar value.
pub proof fn lemma_decodes_first_scalar(v: DecoderView, bytes: Seq<u8>)
    requires
        v.state == Utf8State::Start,
        valid_first_scalar(bytes),
    ensures
        v.feed_all(take_first_scalar(bytes)) == v.emit(decode_first_scalar(bytes) as char),
{
    let b0 = bytes[0];
    if b0 < 0x80 {
        assert(b0 & 0x7F == b0) by (bit_vector)
            requires
                b0 < 0x80,
        ;
        assert(take_first_scalar(bytes) == seq![b0]);
        lemma_feed_all_one(v, b0);
    } else if b0 <= 0xDF {
        let b1 = bytes[1];
        lemma_codepoint_is_sum(b0, b1, 0, 0);
        assert(take_first_scalar(bytes) == seq![b0, b1]);
        lemma_sequence_of_two(v, b0, b1);
    } else if b0 <= 0xEF {
        let b1 = bytes[1];
        let b2 = bytes[2];
        lemma_codepoint_is_sum(b0, b1, b2, 0);
        assert(take_first_scalar(bytes) == seq![b0, b1, b2]);
        lemma_sequence_of_three(v, b0, b1, b2);
    } else {
        let b1 = bytes[1];
        let b2 = bytes[2];
        let b3 = bytes[3];
        lemma_codepoint_is_sum(b0, b1, b2, b3);
        assert(b0 <= 0xF4) by {
            if b0 >= 0xF5 {
                assert((b0 - 0xF0) * 0x40000 >= 0x140000);
            }
        }
        assert(take_first_scalar(bytes) == seq![b0, b1, b2, b3]);
        lemma_sequence_of_four(v, b0, b1, b2, b3);
    }
}

/// Well-formed UTF-8 decodes to the text it encodes. Fed to a decoder that
/// stands between characters, a valid byte sequence adds to the text held
/// exactly the characters that `vstd` reads from it, and leaves the decoder
/// between characters.
pub proof fn lemma_decodes_valid_utf8(v: DecoderView, bytes: Seq<u8>)
    requires
        v.at_rest(),
        valid_utf8(bytes),
    ensures
        v.feed_all(bytes).at_rest(),
        v.feed_all(bytes).output == v.output + decode_utf8(bytes),
    decreases bytes.len(),
{
    if bytes.len() == 0 {
        assert(v.output == v.output + decode_utf8(bytes));
    } else {
        let first = take_first_scalar(bytes);
        let rest = pop_first_scalar(bytes);
        let c = decode_first_scalar(bytes) as char;
        assert(bytes == first + rest);
        lemma_decodes_first_scalar(v, bytes);
        lemma_feed_all_concat(v, first, rest);
        lemma_decodes_valid_utf8(v.emit(c), rest);
        assert(v.output.push(c) + decode_utf8(rest) == v.output + (seq![c] + decode_utf8(rest)));
    }
}

/// Encoding and then decoding gives back the text. The UTF-8 encoding of any
/// sequence of characters, fed to a decoder that stands between characters,
/// adds exactly those characters to the text held.
pub proof fn lemma_round_trip(v: DecoderView, chars: Seq<char>)
    requires
        v.at_rest(),
    ensures
        v.feed_all(encode_utf8(chars)).at_rest(),
        v.feed_all(encode_utf8(chars)).output == v.output + chars,
        decode(encode_utf8(chars)) == chars,
{
    encode_utf8_valid_utf8(chars);
    encode_utf8_decode_utf8(chars);
    lemma_decodes_valid_utf8(v, encode_utf8(chars));
    lemma_decodes_valid_utf8(DecoderView::initial(), encode_utf8(chars));
    assert(Seq::<char>::empty() + chars == chars);
}

} // verus!
