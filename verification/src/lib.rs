//! Binary codec for tagged variant values: null, boolean, integer, float,
//! string, 2D and 3D vector, and an ordered dictionary of variants.
//!
//! Every encoded value starts with a four-byte header, a little-endian
//! 16-bit type code followed by a little-endian 16-bit flag code, and is
//! followed by a payload whose layout depends on the type.
//!
//! - [`types`] holds the type codes, the width flags and the variants.
//! - [`layout`] states the wire layout over mathematical values: `wire` for
//!   the bytes of a value, `parse` for the value that a buffer starts with.
//! - [`decoder`] and [`encoder`] are proved against `parse` and `wire`.
//! - [`laws`] proves how the two relate: what was encoded decodes to itself,
//!   decoding reads no further than the value, and what was decoded is
//!   encoded and decoded to itself again.
//! - [`byte_order`], [`key_index`] and [`standard`] hold what is taken on
//!   trust from the `byteorder` crate, the `indexmap` crate and the standard
//!   library.
//!
//! Floating point numbers are held and moved as IEEE-754 bit patterns; the
//! library does no floating point arithmetic.

pub mod byte_order;
pub mod decoder;
pub mod encoder;
pub mod error;
pub mod key_index;
pub mod laws;
pub mod layout;
pub mod prelude;
pub mod standard;
pub mod types;
