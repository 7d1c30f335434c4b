//! ISO 9564 Format-0 PIN blocks, verified.
//!
//! A Format-0 PIN block combines a customer PIN and a Primary Account
//! Number (PAN) into a fixed 16-character hexadecimal value: the PIN is
//! encoded with its length and a filler into one half-block, twelve PAN
//! digits are zero-prefixed into the other, and the two are XORed byte
//! by byte. Every function of the library carries a contract that pins
//! its result down over sequence views of the inputs.

pub mod block;
pub mod chars;
pub mod error;
pub mod hex_codec;
pub mod strutil;
