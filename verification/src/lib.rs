//! Lazy decomposition of an unsigned integer into a fixed number of digits
//! under a given base, least significant digit first.
//!
//! `unpack(value, modulo, length)` starts an extraction and computes nothing.
//! Each call of `next` then produces `value % modulo` and keeps
//! `value / modulo`, until `length` digits are out; from then on it produces
//! nothing, however often it is called. If `length` is more than the number of
//! digits that `value` has, the further digits are `0`; if it is less, the high
//! digits are never produced.
//!
//! The extractor works on `u8`, `u16`, `u32`, `u64`, `u128` and `usize` alike
//! (`unsigned`). What it promises is stated over a model of four natural
//! numbers (`model`), and what follows from those promises for any number of
//! steps is proved in `laws`.
mod arith;
pub mod laws;
pub mod model;
pub mod num_specs;
pub mod pack;
pub mod unsigned;

pub use model::PackState;
pub use pack::{unpack, IntegerPack, Unpack, UnpackError};
pub use unsigned::UnsignedInt;
