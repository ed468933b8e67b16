//! Encoding of strings.

use vstd::prelude::*;
use vstd::utf8::{encode_utf8, is_ascii_chars};
use crate::byte_order::{append, append_zeros, start, write_u32};
use crate::encoder::Encoder;
use crate::error::CodecError;
use crate::laws::shapes::lemma_ascii_text;
use crate::layout::{ascii_bytes, wire_text};
use crate::types::primitive::GodotString;
use crate::types::{GodotTypeIndex, SerializeFlag};

verus! {

impl Encoder {
    /// The bytes that stand for a string variant.
    pub fn encode_string(string: &GodotString) -> (bytes: Result<Vec<u8>, CodecError>)
        ensures
            bytes is Ok,
            bytes->Ok_0@ == wire_text(encode_utf8(string.value@)),
            is_ascii_chars(string.value@) ==> bytes->Ok_0@ == wire_text(
                ascii_bytes(string.value@),
            ),
    {
        Ok(Self::encode_str(string.value.as_str()))
    }

    /// The bytes that stand for a string: the header, the length of its
    /// UTF-8 form in 32 bits, that form, and zeros up to the next multiple of
    /// four.
    pub fn encode_owned_string(string: String) -> (bytes: Vec<u8>)
        ensures
            bytes@ == wire_text(encode_utf8(string@)),
            is_ascii_chars(string@) ==> bytes@ == wire_text(ascii_bytes(string@)),
    {
        Self::encode_str(string.as_str())
    }

    /// The bytes that stand for a string: the header, the length of its
    /// UTF-8 form in 32 bits, that form, and zeros up to the next multiple of
    /// four. The UTF-8 form of ASCII text has one byte for each character.
    pub fn encode_str(string: &str) -> (bytes: Vec<u8>)
        ensures
            bytes@ == wire_text(encode_utf8(string@)),
            is_ascii_chars(string@) ==> bytes@ == wire_text(ascii_bytes(string@)),
    {
        proof {
            if is_ascii_chars(string@) {
                lemma_ascii_text(string@);
            }
        }
        let payload = string.as_bytes();
        let length: usize = payload.len();
        let pad: usize = (4 - (length % 4)) % 4;
        let mut bytes = start(GodotTypeIndex::String, SerializeFlag::Bit32);
        let field = write_u32((length as u64 % 0x1_0000_0000) as u32);
        append(&mut bytes, field.as_slice());
        append(&mut bytes, payload);
        append_zeros(&mut bytes, pad);
        bytes
    }
}

} // verus!
