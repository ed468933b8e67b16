//! How far decoding reads: the bytes that a value occupies, pair by pair.

use vstd::prelude::*;
use crate::byte_order::{field, le_u32};
use crate::error::CodecError;
use crate::layout::{
    parse, parse_dictionary, parse_entries, rest_after, shifted, with_pair, Value,
};

verus! {

/// A decoded value occupies at least the four bytes of its header and no
/// more bytes than the buffer has.
pub proof fn lemma_parse_bounds(b: Seq<u8>)
    ensures
        parse(b) matches Ok((_, n)) ==> 4 <= n <= b.len(),
    decreases b.len(), 1nat,
{
    if parse(b) is Ok {
        if b.len() >= 8 && parse_dictionary(b) == parse(b) {
            lemma_parse_entries_bounds(b.skip(8), le_u32(field(b, 4, 4)) as nat, Seq::empty());
        }
    }
}

/// Decoded entries occupy no more bytes than the buffer has.
pub proof fn lemma_parse_entries_bounds(b: Seq<u8>, count: nat, acc: Seq<(Value, Value)>)
    ensures
        parse_entries(b, count, acc) matches Ok((_, n)) ==> n <= b.len(),
    decreases b.len(), count + 2,
{
    if count > 0 {
        if let Ok((key, key_len)) = parse(b) {
            lemma_parse_bounds(b);
            let after_key = rest_after(b, key_len);
            if let Ok((value, value_len)) = parse(after_key) {
                lemma_parse_bounds(after_key);
                lemma_parse_entries_bounds(
                    rest_after(after_key, value_len),
                    (count - 1) as nat,
                    with_pair(acc, key, value),
                );
            }
        }
    }
}

/// Reading one pair: where the key or the value cannot be read, neither can
/// the entries; otherwise the entries are those read after the pair, which
/// is first inserted unless its key is null.
pub proof fn lemma_read_pair(b: Seq<u8>, at: int, count: nat, acc: Seq<(Value, Value)>)
    requires
        count > 0,
        0 <= at <= b.len(),
    ensures
        match parse(b.skip(at)) {
            Err(e) => parse_entries(b.skip(at), count, acc) == Err::<
                (Seq<(Value, Value)>, nat),
                CodecError,
            >(e),
            Ok((key, key_len)) => at + key_len <= b.len() && match parse(
                b.skip(at + key_len),
            ) {
                Err(e) => parse_entries(b.skip(at), count, acc) == Err::<
                    (Seq<(Value, Value)>, nat),
                    CodecError,
                >(e),
                Ok((value, value_len)) => at + key_len + value_len <= b.len() && parse_entries(
                    b.skip(at),
                    count,
                    acc,
                ) == shifted(
                    parse_entries(
                        b.skip(at + key_len + value_len),
                        (count - 1) as nat,
                        with_pair(acc, key, value),
                    ),
                    key_len + value_len,
                ),
            },
        },
{
    let at_key = b.skip(at);
    lemma_parse_bounds(at_key);
    if let Ok((key, key_len)) = parse(at_key) {
        assert(rest_after(at_key, key_len) == b.skip(at + key_len));
        let at_value = b.skip(at + key_len);
        lemma_parse_bounds(at_value);
        if let Ok((value, value_len)) = parse(at_value) {
            assert(rest_after(at_value, value_len) == b.skip(at + key_len + value_len));
        }
    }
}

} // verus!
