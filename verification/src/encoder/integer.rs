//! Encoding of integers.

use vstd::prelude::*;
use crate::byte_order::{append, start, write_i32, write_i64};
use crate::encoder::Encoder;
use crate::error::CodecError;
use crate::layout::{wire_int, wire_int32, wire_int64};
use crate::types::primitive::GodotInteger;
use crate::types::{GodotTypeIndex, SerializeFlag};

verus! {

impl Encoder {
    /// The bytes that stand for an integer variant. The width follows the
    /// number alone: 32 bits where it fits in them, 64 bits where it does
    /// not, whatever width the variant was built or decoded with.
    pub fn encode_int(integer: &GodotInteger) -> (bytes: Result<Vec<u8>, CodecError>)
        ensures
            bytes is Ok,
            bytes->Ok_0@ == wire_int(integer.value),
            bytes->Ok_0@.len() == (if i32::MIN <= integer.value <= i32::MAX {
                8nat
            } else {
                12nat
            }),
    {
        if integer.value > i32::MAX as i64 || integer.value < i32::MIN as i64 {
            return Ok(Self::encode_int64(integer.value));
        }
        Ok(Self::encode_int32(integer.value as i32))
    }

    /// The bytes that stand for an integer at 32-bit width.
    pub fn encode_int32(i: i32) -> (bytes: Vec<u8>)
        ensures
            bytes@ == wire_int32(i),
            bytes@.len() == 8,
    {
        let mut bytes = start(GodotTypeIndex::Integer, SerializeFlag::Bit32);
        let payload = write_i32(i);
        append(&mut bytes, payload.as_slice());
        bytes
    }

    /// The bytes that stand for an integer at 64-bit width.
    pub fn encode_int64(i: i64) -> (bytes: Vec<u8>)
        ensures
            bytes@ == wire_int64(i),
            bytes@.len() == 12,
    {
        let mut bytes = start(GodotTypeIndex::Integer, SerializeFlag::Bit64);
        let payload = write_i64(i);
        append(&mut bytes, payload.as_slice());
        bytes
    }
}

} // verus!
