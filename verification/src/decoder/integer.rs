//! Decoding of integers.

use vstd::prelude::*;
use crate::byte_order::{i32_at, i64_at};
use crate::decoder::{decodes, Decoder};
use crate::error::CodecError;
use crate::layout::parse_raw_int;
use crate::types::primitive::GodotInteger;
use crate::types::{SerializeFlag, TYPE_PADDING};

verus! {

impl Decoder {
    /// The integer that a buffer starts with, at the width that the flag
    /// gives. Fails with `TruncatedBuffer` where the buffer is shorter than
    /// the header and the payload together.
    pub fn decode_int(bytes: &[u8], flag: &SerializeFlag) -> (integer: Result<
        GodotInteger,
        CodecError,
    >)
        ensures
            decodes(integer, parse_raw_int(bytes@, 4, *flag)),
    {
        Self::decode_raw_int(bytes, TYPE_PADDING as usize, flag)
    }

    /// The integer whose payload starts at `offset`, at the width that the
    /// flag gives; the variant records the header and that width as its
    /// length. Fails with `TruncatedBuffer` where the buffer is shorter than
    /// the header and the payload together, or ends before the payload does.
    pub fn decode_raw_int(bytes: &[u8], offset: usize, flag: &SerializeFlag) -> (integer: Result<
        GodotInteger,
        CodecError,
    >)
        ensures
            decodes(integer, parse_raw_int(bytes@, offset as nat, *flag)),
    {
        let length: usize = flag.width();
        if bytes.len() < TYPE_PADDING as usize + length {
            return Err(CodecError::TruncatedBuffer);
        }
        if offset > bytes.len() - length {
            return Err(CodecError::TruncatedBuffer);
        }
        let byte_size: usize = TYPE_PADDING as usize + length;
        match flag {
            SerializeFlag::Bit64 => Ok(GodotInteger { value: i64_at(bytes, offset), byte_size }),
            SerializeFlag::Bit32 => Ok(
                GodotInteger { value: i32_at(bytes, offset) as i64, byte_size },
            ),
        }
    }
}

} // verus!
