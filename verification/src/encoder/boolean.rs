//! Encoding of booleans.

use vstd::prelude::*;
use crate::byte_order::{append, start, write_i32};
use crate::encoder::Encoder;
use crate::error::CodecError;
use crate::layout::wire_bool;
use crate::types::primitive::GodotBool;
use crate::types::{GodotTypeIndex, SerializeFlag};

verus! {

impl Encoder {
    /// The bytes that stand for a boolean variant.
    pub fn encode_bool(value: &GodotBool) -> (bytes: Result<Vec<u8>, CodecError>)
        ensures
            bytes is Ok,
            bytes->Ok_0@ == wire_bool(value.value),
    {
        Ok(Self::encode_raw_bool(value.value))
    }

    /// The bytes that stand for a boolean: the header and the 32-bit integer
    /// one for true, zero for false.
    pub fn encode_raw_bool(value: bool) -> (bytes: Vec<u8>)
        ensures
            bytes@ == wire_bool(value),
    {
        let mut bytes = start(GodotTypeIndex::Bool, SerializeFlag::Bit32);
        let payload = write_i32(if value { 1 } else { 0 });
        append(&mut bytes, payload.as_slice());
        bytes
    }
}

} // verus!
