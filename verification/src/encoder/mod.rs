//! Encoding: from a variant to the bytes that stand for it.

use vstd::prelude::*;
use crate::byte_order::start;
use crate::error::CodecError;
use crate::layout::{header, wire};
use crate::types::variant::Variant;
use crate::types::{GodotTypeIndex, SerializeFlag};

pub mod boolean;
pub mod dictionary;
pub mod float;
pub mod integer;
pub mod string;
pub mod vector;

verus! {

/// The encoder. Its functions take a variant and return its bytes.
pub struct Encoder;

impl Encoder {
    /// The bytes that stand for null: the header alone.
    pub fn encode_null() -> (bytes: Vec<u8>)
        ensures
            bytes@ == header(GodotTypeIndex::Nil, SerializeFlag::Bit32),
    {
        start(GodotTypeIndex::Nil, SerializeFlag::Bit32)
    }

    /// The bytes that stand for a variant of any kind. Every kind of
    /// `Variant` is implemented, so the result is never an error.
    pub fn encode_variant(variant: &Variant) -> (bytes: Result<Vec<u8>, CodecError>)
        ensures
            bytes is Ok,
            bytes->Ok_0@ == wire(variant@),
        decreases variant,
    {
        match variant {
            Variant::Null(_) => Ok(Self::encode_null()),
            Variant::Bool(b) => Self::encode_bool(b),
            Variant::Integer(i) => Self::encode_int(i),
            Variant::Float(f) => Self::encode_float(f),
            Variant::String(s) => Self::encode_string(s),
            Variant::Vector2(v) => Self::encode_vector2(v),
            Variant::Vector3(v) => Self::encode_vector3(v),
            Variant::Dictionary(d) => Self::encode_dictionary(d),
        }
    }
}

} // verus!
