//! Decoding of booleans.

use vstd::prelude::*;
use crate::byte_order::i32_at;
use crate::decoder::{decodes, Decoder};
use crate::error::CodecError;
use crate::layout::parse_bool;
use crate::types::primitive::GodotBool;
use crate::types::{SerializeFlag, TYPE_PADDING};

verus! {

impl Decoder {
    /// The boolean that a buffer starts with: true exactly when the 32-bit
    /// integer after the header is one. The flag plays no part. Fails with
    /// `TruncatedBuffer` on fewer than eight bytes.
    pub fn decode_bool(bytes: &[u8], flag: &SerializeFlag) -> (value: Result<
        GodotBool,
        CodecError,
    >)
        ensures
            decodes(value, parse_bool(bytes@)),
    {
        if bytes.len() < TYPE_PADDING as usize + GodotBool::BIT_SIZE {
            return Err(CodecError::TruncatedBuffer);
        }
        let value = i32_at(bytes, TYPE_PADDING as usize) == 1;
        Ok(GodotBool { value })
    }
}

} // verus!
