//! Encoding of dictionaries.

use vstd::prelude::*;
use crate::byte_order::{append, start, write_u32};
use crate::encoder::Encoder;
use crate::error::CodecError;
use crate::layout::{wire_dictionary, wire_entries};
use crate::types::structures::GodotDictionary;
use crate::types::{GodotTypeIndex, SerializeFlag};

verus! {

impl Encoder {
    /// The bytes that stand for a dictionary: the header, the number of
    /// entries in 32 bits, and for each entry, in insertion order, the bytes
    /// of its key and then those of its value.
    pub fn encode_dictionary(dictionary: &GodotDictionary) -> (bytes: Result<Vec<u8>, CodecError>)
        ensures
            bytes is Ok,
            bytes->Ok_0@ == wire_dictionary(dictionary@),
        decreases dictionary,
    {
        let count: usize = dictionary.len();
        let mut bytes = start(GodotTypeIndex::Dictionary, SerializeFlag::Bit32);
        let field = write_u32((count as u64 % 0x1_0000_0000) as u32);
        append(&mut bytes, field.as_slice());
        assert(dictionary@.skip(0) == dictionary@);
        let mut i: usize = 0;
        while i < count
            invariant
                i <= count,
                count == dictionary@.len(),
                bytes@ + wire_entries(dictionary@.skip(i as int)) == wire_dictionary(dictionary@),
            decreases count - i,
        {
            let ghost rest = dictionary@.skip(i as int);
            assert(rest[0] == dictionary@[i as int]);
            assert(rest.skip(1) == dictionary@.skip(i + 1));
            let key_bytes = Self::encode_variant(dictionary.key_at(i))?;
            append(&mut bytes, key_bytes.as_slice());
            let value_bytes = Self::encode_variant(dictionary.value_at(i))?;
            append(&mut bytes, value_bytes.as_slice());
            i += 1;
            assert(bytes@ + wire_entries(dictionary@.skip(i as int)) =~= wire_dictionary(
                dictionary@,
            ));
        }
        assert(wire_entries(dictionary@.skip(i as int)) =~= Seq::<u8>::empty());
        assert(bytes@ =~= wire_dictionary(dictionary@));
        Ok(bytes)
    }
}

} // verus!
