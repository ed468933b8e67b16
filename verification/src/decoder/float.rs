//! Decoding of floats.

use vstd::prelude::*;
use crate::byte_order::{u32_at, u64_at};
use crate::decoder::{decodes, Decoder};
use crate::error::CodecError;
use crate::layout::parse_raw_float;
use crate::types::primitive::GodotFloat;
use crate::types::{SerializeFlag, TYPE_PADDING};

verus! {

impl Decoder {
    /// The float that a buffer starts with, at the width that the flag
    /// gives. Fails with `TruncatedBuffer` where the buffer is shorter than
    /// the header and the payload together.
    pub fn decode_float(bytes: &[u8], flag: &SerializeFlag) -> (float: Result<
        GodotFloat,
        CodecError,
    >)
        ensures
            decodes(float, parse_raw_float(bytes@, 4, *flag)),
    {
        Self::decode_raw_float(bytes, TYPE_PADDING as usize, flag)
    }

    /// The float whose payload starts at `offset`, at the width that the
    /// flag gives; the variant records the header and that width as its
    /// length. Fails with `TruncatedBuffer` where the buffer is shorter than
    /// the header and the payload together, or ends before the payload does.
    pub fn decode_raw_float(bytes: &[u8], offset: usize, flag: &SerializeFlag) -> (float: Result<
        GodotFloat,
        CodecError,
    >)
        ensures
            decodes(float, parse_raw_float(bytes@, offset as nat, *flag)),
    {
        let length: usize = flag.width();
        if bytes.len() < TYPE_PADDING as usize + length {
            return Err(CodecError::TruncatedBuffer);
        }
        if offset > bytes.len() - length {
            return Err(CodecError::TruncatedBuffer);
        }
        let byte_size: usize = TYPE_PADDING as usize + length;
        match flag {
            SerializeFlag::Bit64 => Ok(GodotFloat { bits: u64_at(bytes, offset), byte_size }),
            SerializeFlag::Bit32 => Ok(
                GodotFloat { bits: u32_at(bytes, offset) as u64, byte_size },
            ),
        }
    }
}

} // verus!
