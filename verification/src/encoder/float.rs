//! Encoding of floats.

use vstd::prelude::*;
use crate::byte_order::{append, start, write_u32, write_u64};
use crate::encoder::Encoder;
use crate::error::CodecError;
use crate::layout::{wire_float32, wire_float64};
use crate::types::primitive::GodotFloat;
use crate::types::{GodotTypeIndex, SerializeFlag};

verus! {

impl Encoder {
    /// The bytes that stand for a float variant. The width follows the
    /// length that the variant records, not the number: double precision
    /// where the variant records more than eight bytes, single precision
    /// otherwise.
    pub fn encode_float(float: &GodotFloat) -> (bytes: Result<Vec<u8>, CodecError>)
        ensures
            bytes is Ok,
            bytes->Ok_0@ == (if float.spec_is_wide() {
                wire_float64(float.bits)
            } else {
                wire_float32(float.spec_narrow_bits())
            }),
    {
        if float.is_wide() {
            return Ok(Self::encode_f64(float.bits));
        }
        Ok(Self::encode_f32(float.narrow_bits()))
    }

    /// The bytes that stand for a single-precision float, given by its bit
    /// pattern.
    pub fn encode_f32(bits: u32) -> (bytes: Vec<u8>)
        ensures
            bytes@ == wire_float32(bits),
    {
        let mut bytes = start(GodotTypeIndex::Float, SerializeFlag::Bit32);
        let payload = write_u32(bits);
        append(&mut bytes, payload.as_slice());
        bytes
    }

    /// The bytes that stand for a double-precision float, given by its bit
    /// pattern.
    pub fn encode_f64(bits: u64) -> (bytes: Vec<u8>)
        ensures
            bytes@ == wire_float64(bits),
    {
        let mut bytes = start(GodotTypeIndex::Float, SerializeFlag::Bit64);
        let payload = write_u64(bits);
        append(&mut bytes, payload.as_slice());
        bytes
    }
}

} // verus!
