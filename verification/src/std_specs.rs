//! What this crate assumes of the standard library.
//!
//! The decoder calls three functions of `std` for which `vstd` has no
//! specification. Each statement below is taken on trust from the function's
//! documentation; nothing in this crate proves it.

use vstd::prelude::*;

verus! {

/// `String::with_capacity` returns an empty string. The buffer it reserves
/// cannot be seen in the string's value. A capacity above `isize::MAX` bytes
/// makes the allocation panic, so it is left out.
pub assume_specification[ String::with_capacity ](capacity: usize) -> (s: String)
    requires
        capacity <= isize::MAX,
    ensures
        s@ == Seq::<char>::empty(),
;

/// `String::push` appends the character to the end of the string and leaves
/// what was there as it was.
pub assume_specification[ String::push ](s: &mut String, ch: char)
    ensures
        final(s)@ == old(s)@.push(ch),
;

/// `char::from_u32` returns the character whose number is `i` where `i` is a
/// Unicode scalar value, and `None` where it is a surrogate or lies above
/// `0x10FFFF`.
pub assume_specification[ char::from_u32 ](i: u32) -> (c: Option<char>)
    ensures
        c == if i <= 0xD7FF || 0xE000 <= i <= 0x10FFFF {
            Some(i as char)
        } else {
            None
        },
;

} // verus!
