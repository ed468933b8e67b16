//! Encoding of vectors.

use vstd::prelude::*;
use crate::byte_order::{append, start, write_u32};
use crate::encoder::Encoder;
use crate::error::CodecError;
use crate::layout::{wire_vector2, wire_vector3};
use crate::types::structures::{GodotVector2, GodotVector3};
use crate::types::{GodotTypeIndex, SerializeFlag};

verus! {

impl Encoder {
    /// The bytes that stand for a 2D vector: the header and its two
    /// components.
    pub fn encode_vector2(vec2: &GodotVector2) -> (bytes: Result<Vec<u8>, CodecError>)
        ensures
            bytes is Ok,
            bytes->Ok_0@ == wire_vector2(vec2.x, vec2.y),
    {
        let mut bytes = start(GodotTypeIndex::Vector2, SerializeFlag::Bit32);
        let x = write_u32(vec2.x);
        append(&mut bytes, x.as_slice());
        let y = write_u32(vec2.y);
        append(&mut bytes, y.as_slice());
        Ok(bytes)
    }

    /// The bytes that stand for a 3D vector: the header and its three
    /// components.
    pub fn encode_vector3(vec3: &GodotVector3) -> (bytes: Result<Vec<u8>, CodecError>)
        ensures
            bytes is Ok,
            bytes->Ok_0@ == wire_vector3(vec3.x, vec3.y, vec3.z),
    {
        let mut bytes = start(GodotTypeIndex::Vector3, SerializeFlag::Bit32);
        let x = write_u32(vec3.x);
        append(&mut bytes, x.as_slice());
        let y = write_u32(vec3.y);
        append(&mut bytes, y.as_slice());
        let z = write_u32(vec3.z);
        append(&mut bytes, z.as_slice());
        Ok(bytes)
    }
}

} // verus!
