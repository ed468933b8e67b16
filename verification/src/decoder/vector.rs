//! Decoding of vectors.

use vstd::prelude::*;
use crate::decoder::{decodes, Decoder};
use crate::error::CodecError;
use crate::layout::{parse_vector2, parse_vector3};
use crate::types::structures::{GodotVector2, GodotVector3};
use crate::types::SerializeFlag;

verus! {

impl Decoder {
    /// The 2D vector that a buffer starts with: two single-precision floats
    /// after the header. Fails with `TruncatedBuffer` on fewer than twelve
    /// bytes.
    pub fn decode_vector2(bytes: &[u8]) -> (vector: Result<GodotVector2, CodecError>)
        ensures
            decodes(vector, parse_vector2(bytes@)),
    {
        let x = Self::decode_raw_float(bytes, 4, &SerializeFlag::Bit32)?.narrow_bits();
        let y = Self::decode_raw_float(bytes, 8, &SerializeFlag::Bit32)?.narrow_bits();
        Ok(GodotVector2 { x, y })
    }

    /// The 3D vector that a buffer starts with: three single-precision
    /// floats after the header. Fails with `TruncatedBuffer` on fewer than
    /// sixteen bytes.
    pub fn decode_vector3(bytes: &[u8]) -> (vector: Result<GodotVector3, CodecError>)
        ensures
            decodes(vector, parse_vector3(bytes@)),
    {
        let x = Self::decode_raw_float(bytes, 4, &SerializeFlag::Bit32)?.narrow_bits();
        let y = Self::decode_raw_float(bytes, 8, &SerializeFlag::Bit32)?.narrow_bits();
        let z = Self::decode_raw_float(bytes, 12, &SerializeFlag::Bit32)?.narrow_bits();
        Ok(GodotVector3 { x, y, z })
    }
}

} // verus!
