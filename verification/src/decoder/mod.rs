//! Decoding: from a buffer to the variant that it starts with.

use vstd::prelude::*;
use crate::byte_order::u16_at;
use crate::error::CodecError;
use crate::laws::bounds::lemma_parse_bounds;
use crate::layout::{parse, parse_header, Parsed};
use crate::types::primitive::GodotNull;
use crate::types::variant::{GodotVariant, Variant};
use crate::types::{GodotTypeIndex, SerializeFlag};

pub mod boolean;
pub mod dictionary;
pub mod float;
pub mod integer;
pub mod string;
pub mod vector;

verus! {

/// The decoder. Its functions take a buffer that starts with an encoded
/// value and may go on after it; the variant they return records how many
/// bytes it occupied.
pub struct Decoder;

/// Whether `result` is what a decoder owes where the layout gives `parsed`:
/// a variant that stands for the parsed value and records the parsed length,
/// or the same error.
pub open spec fn decodes<T: GodotVariant>(result: Result<T, CodecError>, parsed: Parsed) -> bool {
    match parsed {
        Ok((value, length)) => result matches Ok(variant) && variant.value() == value
            && variant.spec_byte_length() == length,
        Err(e) => result matches Err(error) && error == e,
    }
}

impl Decoder {
    /// The tag and the width flag in the header of a buffer. Fails with
    /// `TruncatedBuffer` on fewer than four bytes and with `UnsupportedType`
    /// on a type code beyond the known range; a flag code that stands for no
    /// flag reads as the default.
    pub fn get_type_and_flags(bytes: &[u8]) -> (header: Result<
        (GodotTypeIndex, SerializeFlag),
        CodecError,
    >)
        ensures
            header == parse_header(bytes@),
    {
        if bytes.len() < 4 {
            return Err(CodecError::TruncatedBuffer);
        }
        let type_idx = match GodotTypeIndex::try_from(u16_at(bytes, 0)) {
            Ok(type_idx) => type_idx,
            Err(_) => {
                return Err(CodecError::UnsupportedType);
            },
        };
        let flag = match SerializeFlag::try_from(u16_at(bytes, 2)) {
            Ok(flag) => flag,
            Err(_) => SerializeFlag::Bit32,
        };
        Ok((type_idx, flag))
    }

    /// The variant that a buffer starts with, of whatever kind its header
    /// names. Fails with `TruncatedBuffer` where the buffer is empty or ends
    /// before the value does, with `UnsupportedType` where the type code is
    /// unknown or names a kind that is not implemented, and with
    /// `InvalidText` where a string is not UTF-8; a failure inside a
    /// dictionary fails the whole.
    pub fn decode_variant(bytes: &[u8]) -> (variant: Result<Variant, CodecError>)
        ensures
            decodes(variant, parse(bytes@)),
            variant matches Ok(decoded) ==> 4 <= decoded.spec_length() <= bytes@.len(),
        decreases bytes@.len(), 1nat,
    {
        proof {
            lemma_parse_bounds(bytes@);
        }
        if bytes.is_empty() {
            return Err(CodecError::TruncatedBuffer);
        }
        let (type_idx, flag) = Self::get_type_and_flags(bytes)?;
        let variant = match type_idx {
            GodotTypeIndex::Nil => Variant::Null(GodotNull),
            GodotTypeIndex::Bool => Variant::Bool(Self::decode_bool(bytes, &flag)?),
            GodotTypeIndex::Integer => Variant::Integer(Self::decode_int(bytes, &flag)?),
            GodotTypeIndex::Float => Variant::Float(Self::decode_float(bytes, &flag)?),
            GodotTypeIndex::String => Variant::String(Self::decode_string(bytes)?),
            GodotTypeIndex::Vector2 => Variant::Vector2(Self::decode_vector2(bytes)?),
            GodotTypeIndex::Vector3 => Variant::Vector3(Self::decode_vector3(bytes)?),
            GodotTypeIndex::Dictionary => Variant::Dictionary(Self::decode_dictionary(bytes)?),
            GodotTypeIndex::Unsupported(_) => {
                return Err(CodecError::UnsupportedType);
            },
        };
        Ok(variant)
    }
}

} // verus!
