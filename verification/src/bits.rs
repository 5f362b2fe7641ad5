//! Bit-level facts about UTF-8 bytes.
//!
//! The decoder works with masks and shifts; the model speaks of ranges,
//! multiples and sums. The lemmas here carry one over to the other.

use vstd::prelude::*;
use vstd::utf8::codepoint_width_2;
use vstd::utf8::codepoint_width_3;
use vstd::utf8::codepoint_width_4;

verus! {

/// The three masks that tell lead bytes apart pick out three ranges of
/// byte values.
pub proof fn lemma_lead_ranges(b: u8)
    by (bit_vector)
    ensures
        (b & 0xe0) == 0xc0 <==> 0xC0 <= b <= 0xDF,
        (b & 0xf0) == 0xe0 <==> 0xE0 <= b <= 0xEF,
        (b & 0xf8) == 0xf0 <==> 0xF0 <= b <= 0xF7,
{
}

/// The payload bits of a lead byte, moved into place, are the byte's
/// distance from the start of its range times the weight of its lowest bit.
pub proof fn lemma_lead_payload(b: u8)
    by (bit_vector)
    ensures
        0xC0 <= b <= 0xDF ==> ((b as u32 & 0x1f) << 6) == (b - 0xC0) * 0x40,
        0xE0 <= b <= 0xEF ==> ((b as u32 & 0x0f) << 12) == (b - 0xE0) * 0x1000,
        0xF0 <= b <= 0xF7 ==> ((b as u32 & 0x07) << 18) == (b - 0xF0) * 0x40000,
{
}

/// A number is a multiple of a power of two exactly when its low bits are
/// zero.
pub proof fn lemma_low_bits_clear(p: u32)
    by (bit_vector)
    ensures
        p % 0x40000 == 0 <==> p & 0x3ffff == 0,
        p % 0x1000 == 0 <==> p & 0xfff == 0,
        p % 0x40 == 0 <==> p & 0x3f == 0,
{
}

/// Where the bits that a continuation byte fills are still zero, placing
/// them with `|` adds the payload times its weight.
pub proof fn lemma_place_payload(p: u32, b: u8)
    by (bit_vector)
    requires
        p <= 0x13FFC0,
    ensures
        p & 0x3ffff == 0 ==> (p | ((b as u32 & 0x3f) << 12)) == p + (b % 0x40) * 0x1000,
        p & 0xfff == 0 ==> (p | ((b as u32 & 0x3f) << 6)) == p + (b % 0x40) * 0x40,
        p & 0x3f == 0 ==> (p | (b as u32 & 0x3f)) == p + (b % 0x40),
{
}

/// The code point that `vstd` reads from a sequence of two, three or four
/// bytes is the sum that the decoder's model assembles from them.
pub proof fn lemma_codepoint_is_sum(b0: u8, b1: u8, b2: u8, b3: u8)
    by (bit_vector)
    ensures
        0xC0 <= b0 <= 0xDF ==> codepoint_width_2(b0, b1) == (b0 - 0xC0) * 0x40 + b1 % 0x40,
        0xE0 <= b0 <= 0xEF ==> codepoint_width_3(b0, b1, b2) == (b0 - 0xE0) * 0x1000 + (b1
            % 0x40) * 0x40 + b2 % 0x40,
        0xF0 <= b0 <= 0xF7 ==> codepoint_width_4(b0, b1, b2, b3) == (b0 - 0xF0) * 0x40000 + (b1
            % 0x40) * 0x1000 + (b2 % 0x40) * 0x40 + b3 % 0x40,
{
}

} // verus!
