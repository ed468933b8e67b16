//! Decoding of dictionaries.

use vstd::prelude::*;
use crate::byte_order::u32_at;
use crate::decoder::{decodes, Decoder};
use crate::error::CodecError;
use crate::laws::bounds::lemma_read_pair;
use crate::layout::{as_dictionary, parse_dictionary, parse_entries};
use crate::types::structures::GodotDictionary;
use crate::types::variant::GodotVariant;

verus! {

impl Decoder {
    /// The dictionary that a buffer starts with: a 32-bit entry count after
    /// the header, then that many pairs of a key and a value, each decoded
    /// as a variant of any kind. The position moves past both the key and
    /// the value of every pair; a pair whose key is null is then left out,
    /// and every other is inserted. The dictionary records the final
    /// position as its length. Fails with `TruncatedBuffer` on fewer than
    /// eight bytes, and with the failure of the first key or value that
    /// cannot be decoded.
    pub fn decode_dictionary(bytes: &[u8]) -> (dictionary: Result<GodotDictionary, CodecError>)
        ensures
            decodes(dictionary, parse_dictionary(bytes@)),
            dictionary matches Ok(decoded) ==> 8 <= decoded.spec_byte_size() <= bytes@.len(),
        decreases bytes@.len(), 0nat,
    {
        if bytes.len() < 8 {
            return Err(CodecError::TruncatedBuffer);
        }
        let count: u32 = u32_at(bytes, 4);
        let mut dictionary = GodotDictionary::new();
        let mut position: usize = 8;
        let mut read: u32 = 0;
        while read < count
            invariant
                8 <= position <= bytes@.len(),
                read <= count,
                parse_dictionary(bytes@) == as_dictionary(
                    parse_entries(
                        bytes@.skip(position as int),
                        (count - read) as nat,
                        dictionary@,
                    ),
                    position as nat,
                ),
            decreases count - read,
        {
            proof {
                lemma_read_pair(bytes@, position as int, (count - read) as nat, dictionary@);
            }
            assert(bytes@.subrange(position as int, bytes@.len() as int) == bytes@.skip(
                position as int,
            ));
            let key = Self::decode_variant(&bytes[position..bytes.len()])?;
            position += key.byte_length();
            assert(bytes@.subrange(position as int, bytes@.len() as int) == bytes@.skip(
                position as int,
            ));
            let value = Self::decode_variant(&bytes[position..bytes.len()])?;
            position += value.byte_length();
            if !key.is_null() {
                dictionary.insert(key, value);
            }
            read += 1;
        }
        dictionary.set_byte_size(position);
        Ok(dictionary)
    }
}

} // verus!
