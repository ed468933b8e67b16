//! What the decoder yields is canonical and representable.

use vstd::prelude::*;
use vstd::utf8::decode_utf8_encode_utf8;
use crate::byte_order::{field, le_u32};
use crate::laws::{canonical, canonical_entries, representable, representable_entries};
use crate::laws::bounds::lemma_parse_bounds;
use crate::laws::entries::lemma_upsert;
use crate::layout::{
    distinct_keys, parse, parse_entries, rest_after, string_payload, with_pair, Value,
};

verus! {

/// What the decoder yields is canonical and representable.
pub proof fn lemma_decoded_is_canonical(b: Seq<u8>)
    ensures
        parse(b) matches Ok((v, _)) ==> canonical(v) && representable(v),
    decreases b.len(), 1nat,
{
    if let Ok((v, n)) = parse(b) {
        match v {
            Value::Text(text) => {
                let len = le_u32(field(b, 4, 4)) as nat;
                decode_utf8_encode_utf8(string_payload(b));
            },
            Value::Dictionary(entries) => {
                let count = le_u32(field(b, 4, 4)) as nat;
                lemma_decoded_entries_are_canonical(b.skip(8), count, Seq::empty());
            },
            _ => {},
        }
    }
}

/// Entries that the decoder adds to canonical and representable ones are
/// canonical and representable too, and number no more than were read.
pub proof fn lemma_decoded_entries_are_canonical(
    b: Seq<u8>,
    count: nat,
    acc: Seq<(Value, Value)>,
)
    requires
        distinct_keys(acc),
        canonical_entries(acc),
        representable_entries(acc),
    ensures
        parse_entries(b, count, acc) matches Ok((entries, _)) ==> distinct_keys(entries)
            && canonical_entries(entries) && representable_entries(entries) && entries.len()
            <= acc.len() + count,
    decreases b.len(), count + 2,
{
    if count > 0 {
        if let Ok((key, key_len)) = parse(b) {
            lemma_parse_bounds(b);
            lemma_decoded_is_canonical(b);
            let after_key = rest_after(b, key_len);
            if let Ok((value, value_len)) = parse(after_key) {
                lemma_parse_bounds(after_key);
                lemma_decoded_is_canonical(after_key);
                lemma_upsert(acc, key, value);
                lemma_decoded_entries_are_canonical(
                    rest_after(after_key, value_len),
                    (count - 1) as nat,
                    with_pair(acc, key, value),
                );
            }
        }
    }
}

} // verus!
