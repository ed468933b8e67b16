//! What holds of the layout: how decoding and encoding relate.

use vstd::prelude::*;
use vstd::utf8::encode_utf8;
use crate::error::CodecError;
use crate::laws::bounds::lemma_parse_bounds;
use crate::laws::decoded::lemma_decoded_is_canonical;
use crate::laws::encoded::{lemma_encoded_decodes, lemma_pair_then_entries_in_bytes};
use crate::laws::prefix::lemma_parse_reads_prefix;
use crate::laws::shapes::{
    lemma_header, lemma_int_round_trip, lemma_text_length, lemma_text_round_trip,
};
use crate::layout::{
    distinct_keys, header, padding, parse, parse_entries, parse_header, shifted, wire, wire_int,
    wire_int32, wire_int64, wire_text, zeros, Value,
};
use crate::types::{GodotTypeIndex, SerializeFlag};

pub mod bounds;
pub mod decoded;
pub mod encoded;
pub mod entries;
pub mod prefix;
pub mod shapes;

verus! {

/// Every length in the value fits the 32-bit field that carries it: the
/// UTF-8 length of every string and the entry count of every dictionary.
pub open spec fn representable(v: Value) -> bool
    decreases v,
{
    match v {
        Value::Text(text) => encode_utf8(text).len() <= u32::MAX,
        Value::Dictionary(entries) => entries.len() <= u32::MAX && forall|i: int|
            0 <= i < entries.len() ==> representable((#[trigger] entries[i]).0) && representable(
                entries[i].1,
            ),
        _ => true,
    }
}

/// The value is as the decoder yields values: in every dictionary, at every
/// depth, no key is null and no two keys have the same canonical bytes.
pub open spec fn canonical(v: Value) -> bool
    decreases v,
{
    match v {
        Value::Dictionary(entries) => distinct_keys(entries) && forall|i: int|
            0 <= i < entries.len() ==> !((#[trigger] entries[i]).0 is Null) && canonical(
                entries[i].0,
            ) && canonical(entries[i].1),
        _ => true,
    }
}

/// Entries of a representable dictionary, but for their number.
pub open spec fn representable_entries(entries: Seq<(Value, Value)>) -> bool {
    forall|i: int|
        0 <= i < entries.len() ==> representable((#[trigger] entries[i]).0) && representable(
            entries[i].1,
        )
}

/// Entries of a canonical dictionary, but for the distinctness of their keys.
pub open spec fn canonical_entries(entries: Seq<(Value, Value)>) -> bool {
    forall|i: int|
        0 <= i < entries.len() ==> !((#[trigger] entries[i]).0 is Null) && canonical(entries[i].0)
            && canonical(entries[i].1)
}

/// Every encoding starts with a header that names the kind of the value and
/// the width it is encoded at.
pub proof fn law_encoding_starts_with_header(value: Value)
    ensures
        wire(value).len() >= 4,
        wire(value).take(4) == header(value.kind(), value.flag()),
        parse_header(wire(value)) == Ok::<(GodotTypeIndex, SerializeFlag), CodecError>(
            (value.kind(), value.flag()),
        ),
{
    let head = header(value.kind(), value.flag());
    let body = wire(value).skip(4);
    lemma_header(value.kind(), value.flag(), body);
    assert(wire(value) =~= head + body);
    assert(wire(value).take(4) =~= head);
}

/// An integer is encoded in eight bytes, at 32-bit width, exactly when it
/// lies between `i32::MIN` and `i32::MAX`, and in twelve bytes, at 64-bit
/// width, otherwise.
pub proof fn law_integer_width(i: i64)
    ensures
        wire_int(i).len() == 8 <==> i32::MIN <= i <= i32::MAX,
        wire_int(i).len() == 12 <==> !(i32::MIN <= i <= i32::MAX),
        i32::MIN <= i <= i32::MAX ==> wire_int(i) == wire_int32(i as i32),
        !(i32::MIN <= i <= i32::MAX) ==> wire_int(i) == wire_int64(i),
{
    lemma_int_round_trip(i, Seq::empty());
}

/// An encoded string ends in 0, 3, 2 or 1 zero bytes where the length of its
/// UTF-8 form leaves 0, 1, 2 or 3 when divided by four, so that its length
/// is a multiple of four; the decoder occupies that length.
pub proof fn law_string_padding(text: Seq<char>)
    requires
        encode_utf8(text).len() <= u32::MAX,
    ensures
        ({
            let len = encode_utf8(text).len();
            let total = 8 + len + padding(len);
            &&& padding(len) == (if len % 4 == 0 {
                0nat
            } else if len % 4 == 1 {
                3nat
            } else if len % 4 == 2 {
                2nat
            } else {
                1nat
            })
            &&& total % 4 == 0
            &&& wire(Value::Text(text)).len() == total
            &&& wire(Value::Text(text)).skip(8 + len as int) == zeros(padding(len))
            &&& parse(wire(Value::Text(text))) == Ok::<(Value, nat), CodecError>(
                (Value::Text(text), total),
            )
        }),
{
    let payload = encode_utf8(text);
    lemma_text_length(payload);
    lemma_text_round_trip(text, Seq::empty());
    assert(wire_text(payload) + Seq::<u8>::empty() =~= wire_text(payload));
    assert(wire_text(payload).skip(8 + payload.len() as int) =~= zeros(padding(payload.len())));
}

/// In a dictionary, a pair whose key is null is read and left out: the
/// position moves past the key and past its value, and the entries are those
/// that the pairs after it give.
pub proof fn law_null_key_is_skipped(
    value: Value,
    rest: Seq<u8>,
    count: nat,
    acc: Seq<(Value, Value)>,
)
    requires
        count > 0,
        representable(value),
    ensures
        parse_entries(wire(Value::Null) + wire(value) + rest, count, acc) == shifted(
            parse_entries(rest, (count - 1) as nat, acc),
            4 + wire(value).len(),
        ),
{
    lemma_encoded_decodes(Value::Null, wire(value) + rest);
    lemma_encoded_decodes(value, rest);
    let read = parse(wire(value) + rest)->Ok_0.0;
    lemma_pair_then_entries_in_bytes(
        wire(Value::Null),
        wire(value),
        rest,
        count,
        acc,
        Value::Null,
        read,
    );
}

/// A canonical, representable value decodes from its encoding to itself, the
/// decoder occupies the whole encoding, and encoding the decoded value gives
/// the same bytes again.
pub proof fn law_round_trip(value: Value)
    requires
        canonical(value),
        representable(value),
    ensures
        parse(wire(value)) == Ok::<(Value, nat), CodecError>((value, wire(value).len())),
        parse(wire(value)) matches Ok((decoded, _)) && wire(decoded) == wire(value),
{
    lemma_encoded_decodes(value, Seq::empty());
    assert(wire(value) + Seq::<u8>::empty() =~= wire(value));
}

/// What follows a value in a buffer plays no part in decoding it: a buffer
/// that decodes still decodes, to the same value of the same length, with
/// any bytes added at its end.
pub proof fn law_decoding_ignores_what_follows(buffer: Seq<u8>, more: Seq<u8>)
    requires
        parse(buffer) is Ok,
    ensures
        parse(buffer + more) == parse(buffer),
{
    lemma_parse_bounds(buffer);
    let n = parse(buffer)->Ok_0.1;
    assert(buffer.take(n as int) =~= (buffer + more).take(n as int));
    lemma_parse_reads_prefix(buffer, buffer + more);
}

/// Where the encodings of two values stand one after the other, the first
/// decodes as it does alone and occupies exactly its encoding, and what
/// starts after that many bytes decodes as the second does alone. The first
/// value has to be representable: the encoding of a string of four gibibytes
/// or more carries a length that is too short.
pub proof fn law_sequential_decoding(first: Value, second: Value)
    requires
        representable(first),
    ensures
        parse(wire(first)) matches Ok((_, n)) && n == wire(first).len(),
        parse(wire(first) + wire(second)) == parse(wire(first)),
        parse((wire(first) + wire(second)).skip(wire(first).len() as int)) == parse(wire(second)),
{
    let both = wire(first) + wire(second);
    lemma_encoded_decodes(first, Seq::empty());
    assert(wire(first) + Seq::<u8>::empty() =~= wire(first));
    let n = wire(first).len();
    assert(wire(first).take(n as int) =~= both.take(n as int));
    lemma_parse_reads_prefix(wire(first), both);
    assert(both.skip(n as int) =~= wire(second));
}

/// The value that a buffer decodes to decodes from its own encoding to
/// itself.
pub proof fn law_decode_is_idempotent(bytes: Seq<u8>)
    ensures
        parse(bytes) matches Ok((value, _)) ==> parse(wire(value)) == Ok::<(Value, nat), CodecError>(
            (value, wire(value).len()),
        ),
{
    if let Ok((value, _)) = parse(bytes) {
        lemma_decoded_is_canonical(bytes);
        law_round_trip(value);
    }
}

/// Canonical bytes tell values apart: two canonical, representable values
/// with the same encoding are the same value.
pub proof fn law_canonical_bytes_identify(a: Value, b: Value)
    requires
        canonical(a),
        representable(a),
        canonical(b),
        representable(b),
        wire(a) == wire(b),
    ensures
        a == b,
{
    law_round_trip(a);
    law_round_trip(b);
}

} // verus!
