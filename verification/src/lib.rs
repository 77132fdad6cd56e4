//! Bit-level push and pop buffers over fixed-width integers.
//!
//! A [`PushBuffer`] gathers one to eight bits at a time in an integer, the
//! most recent bits in the lowest places. A [`PopBuffer`] gives the bits of
//! an integer out again, one to eight at a time, lowest first. Both work on
//! every integer of 8 to 128 bits, signed or unsigned, and treat it as a
//! plain row of bits: shifts are logical whatever the sign.
//!
//! The contracts are stated over the number that the bits of a buffer
//! spell, see [`model`]; [`laws`] holds what follows for runs of calls.

pub mod laws;
pub mod model;
pub mod pop;
pub mod push;
pub mod runs;
mod sealed;
mod signed;
mod unsigned;
pub mod word;

pub use pop::PopBuffer;
pub use push::PushBuffer;
pub use word::Word;
