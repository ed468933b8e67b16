//! Decoding of strings.

use vstd::prelude::*;
use vstd::slice::slice_to_vec;
use vstd::utf8::encode_utf8_decode_utf8;
use crate::byte_order::u32_at;
use crate::decoder::{decodes, Decoder};
use crate::error::CodecError;
use crate::laws::shapes::lemma_ascii_bytes;
use crate::layout::{ascii_text, is_ascii_bytes, parse_string, string_payload};
use crate::types::primitive::GodotString;

verus! {

impl Decoder {
    /// The string that a buffer starts with: a 32-bit length after the
    /// header, that many bytes of UTF-8, and zeros up to the next multiple
    /// of four, which are stepped over unread. Fails with `TruncatedBuffer`
    /// where the buffer ends before the padding does, and with `InvalidText`
    /// where the payload is not UTF-8. A payload of bytes below 128 is UTF-8,
    /// and holds one character for each byte.
    pub fn decode_string(bytes: &[u8]) -> (string: Result<GodotString, CodecError>)
        ensures
            decodes(string, parse_string(bytes@)),
            is_ascii_bytes(string_payload(bytes@)) ==> match string {
                Ok(string) => string.value@ == ascii_text(string_payload(bytes@)),
                Err(e) => e == CodecError::TruncatedBuffer,
            },
    {
        proof {
            if is_ascii_bytes(string_payload(bytes@)) {
                lemma_ascii_bytes(string_payload(bytes@));
            }
        }
        if bytes.len() < 8 {
            return Err(CodecError::TruncatedBuffer);
        }
        let length: u64 = u32_at(bytes, 4) as u64;
        let pad: u64 = (4 - (length % 4)) % 4;
        let total_length: u64 = 8 + length + pad;
        if (bytes.len() as u64) < total_length {
            return Err(CodecError::TruncatedBuffer);
        }
        let end: usize = 8 + length as usize;
        match String::from_utf8(slice_to_vec(&bytes[8..end])) {
            Ok(value) => {
                proof {
                    encode_utf8_decode_utf8(value@);
                }
                Ok(GodotString { value, byte_size: total_length as usize })
            },
            Err(_) => Err(CodecError::InvalidText),
        }
    }
}

} // verus!
