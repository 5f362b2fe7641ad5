//! An incremental UTF-8 decoder, fed one byte at a time.
//!
//! [`Utf8Decoder`] turns a stream of bytes into Unicode scalar values and
//! gathers them in a text buffer that the caller takes whenever it likes.
//! Malformed input never stops the stream: each undecodable unit becomes one
//! replacement character and decoding goes on with the next byte.
//!
//! The crate is laid out in five parts:
//!
//! * [`model`] is the mathematical description of the decoder: its state, the
//!   effect of one byte, and the effect of a run of bytes.
//! * [`decoder`] is the executable decoder, each method proved against the
//!   model.
//! * [`laws`] holds theorems about the model: input may be split anywhere,
//!   well-formed UTF-8 decodes to the text it encodes, invalid bytes are
//!   replaced one for one.
//! * [`bits`] relates the masks and shifts of the code to the arithmetic of
//!   the model.
//! * [`std_specs`] states what is assumed of the few standard-library
//!   functions that the decoder calls and `vstd` does not describe.

pub mod bits;
pub mod decoder;
pub mod laws;
pub mod model;
pub mod std_specs;

pub use decoder::Utf8Decoder;
pub use model::DecoderView;
pub use model::Utf8State;
pub use model::REPLACEMENT;
