//! Decoding what was encoded.

use vstd::prelude::*;
use crate::byte_order::u32_le;
use crate::error::CodecError;
use crate::laws::bounds::lemma_read_pair;
use crate::laws::{canonical, canonical_entries, representable, representable_entries};
use crate::laws::shapes::{
    lemma_bool_round_trip, lemma_field32, lemma_float32_round_trip, lemma_float64_round_trip,
    lemma_header, lemma_int_round_trip, lemma_text_round_trip, lemma_vector2_round_trip,
    lemma_vector3_round_trip,
};
use crate::layout::{
    distinct_keys, has_key, header, holds_key, key_position, length_field, parse, parse_entries,
    shifted, wire, wire_dictionary, wire_entries, with_pair, Parsed, ParsedEntries, Value,
};
use crate::types::{GodotTypeIndex, SerializeFlag};

verus! {

/// The entries `todo` can follow the entries `acc` in a canonical
/// dictionary.
#[verifier::opaque]
spec fn extends(acc: Seq<(Value, Value)>, todo: Seq<(Value, Value)>) -> bool {
    distinct_keys(acc + todo) && canonical_entries(todo)
}

/// `wire` under a name that stays folded, so that the induction over values
/// does not unfold the layout at every step.
#[verifier::opaque]
spec fn folded_wire(v: Value) -> Seq<u8> {
    wire(v)
}

/// `wire_entries` under a name that stays folded.
#[verifier::opaque]
spec fn folded_wire_entries(entries: Seq<(Value, Value)>) -> Seq<u8> {
    wire_entries(entries)
}

/// `parse` under a name that stays folded.
#[verifier::opaque]
spec fn folded_parse(b: Seq<u8>) -> Parsed {
    parse(b)
}

/// `parse_entries` under a name that stays folded.
#[verifier::opaque]
spec fn folded_parse_entries(b: Seq<u8>, count: nat, acc: Seq<(Value, Value)>) -> ParsedEntries {
    parse_entries(b, count, acc)
}

/// An encoded value other than a dictionary decodes to itself, whatever
/// follows it.
proof fn lemma_scalar_round_trip(v: Value, rest: Seq<u8>)
    requires
        !(v is Dictionary),
        representable(v),
    ensures
        folded_parse(folded_wire(v) + rest) == Ok::<(Value, nat), CodecError>(
            (v, folded_wire(v).len()),
        ),
{
    reveal(folded_wire);
    reveal(folded_parse);
    match v {
        Value::Null => {
            lemma_header(GodotTypeIndex::Nil, SerializeFlag::Bit32, rest);
        },
        Value::Bool(b) => {
            lemma_bool_round_trip(b, rest);
        },
        Value::Integer(i) => {
            lemma_int_round_trip(i, rest);
        },
        Value::Float32(bits) => {
            lemma_float32_round_trip(bits, rest);
        },
        Value::Float64(bits) => {
            lemma_float64_round_trip(bits, rest);
        },
        Value::Text(text) => {
            lemma_text_round_trip(text, rest);
        },
        Value::Vector2 { x, y } => {
            lemma_vector2_round_trip(x, y, rest);
        },
        Value::Vector3 { x, y, z } => {
            lemma_vector3_round_trip(x, y, z, rest);
        },
        Value::Dictionary(_) => {},
    }
}

/// An encoded dictionary decodes to the entries that its encoded entries
/// decode to, provided that their number fits in 32 bits.
proof fn lemma_dictionary_round_trip(
    entries: Seq<(Value, Value)>,
    read: Seq<(Value, Value)>,
    rest: Seq<u8>,
)
    requires
        entries.len() <= u32::MAX,
        folded_parse_entries(folded_wire_entries(entries) + rest, entries.len(), Seq::empty())
            == Ok::<(Seq<(Value, Value)>, nat), CodecError>(
            (read, folded_wire_entries(entries).len()),
        ),
    ensures
        folded_parse(folded_wire(Value::Dictionary(entries)) + rest) == Ok::<
            (Value, nat),
            CodecError,
        >((Value::Dictionary(read), folded_wire(Value::Dictionary(entries)).len())),
{
    reveal(folded_wire);
    reveal(folded_wire_entries);
    reveal(folded_parse);
    reveal(folded_parse_entries);
    let head = header(GodotTypeIndex::Dictionary, SerializeFlag::Bit32);
    let count = length_field(entries.len());
    let tail = wire_entries(entries) + rest;
    let b = wire_dictionary(entries) + rest;
    lemma_header(GodotTypeIndex::Dictionary, SerializeFlag::Bit32, u32_le(count) + tail);
    lemma_field32(head, count, tail);
    assert(b =~= head + (u32_le(count) + tail));
    assert(b =~= head + u32_le(count) + tail);
    assert(b.skip(8) =~= tail);
}

/// Where a buffer starts with a key and a value that decode, its entries are
/// those that are read after the pair.
pub(crate) proof fn lemma_pair_then_entries_in_bytes(
    key_bytes: Seq<u8>,
    value_bytes: Seq<u8>,
    later: Seq<u8>,
    count: nat,
    acc: Seq<(Value, Value)>,
    key: Value,
    value: Value,
)
    requires
        count > 0,
        parse(key_bytes + (value_bytes + later)) == Ok::<(Value, nat), CodecError>(
            (key, key_bytes.len()),
        ),
        parse(value_bytes + later) == Ok::<(Value, nat), CodecError>((value, value_bytes.len())),
    ensures
        parse_entries(key_bytes + value_bytes + later, count, acc) == shifted(
            parse_entries(later, (count - 1) as nat, with_pair(acc, key, value)),
            key_bytes.len() + value_bytes.len(),
        ),
{
    let b = key_bytes + value_bytes + later;
    assert(b.skip(0) =~= b);
    assert(b =~= key_bytes + (value_bytes + later));
    assert(b.skip(key_bytes.len() as int) =~= value_bytes + later);
    assert(b.skip(key_bytes.len() as int + value_bytes.len()) =~= later);
    lemma_read_pair(b, 0, count, acc);
}

/// The encoding of entries starts with that of the first key and that of
/// the first value.
proof fn lemma_first_entry(todo: Seq<(Value, Value)>)
    requires
        todo.len() > 0,
    ensures
        folded_wire_entries(todo) == folded_wire(todo[0].0) + folded_wire(todo[0].1)
            + folded_wire_entries(todo.skip(1)),
{
    reveal(folded_wire);
    reveal(folded_wire_entries);
}

/// Where a buffer starts with the encodings of a key and of a value that
/// decode, its entries are those that are read after the pair.
proof fn lemma_pair_then_entries(
    todo: Seq<(Value, Value)>,
    rest: Seq<u8>,
    acc: Seq<(Value, Value)>,
    key: Value,
    value: Value,
)
    requires
        todo.len() > 0,
        folded_parse(
            folded_wire(todo[0].0) + (folded_wire(todo[0].1) + (folded_wire_entries(todo.skip(1))
                + rest)),
        ) == Ok::<(Value, nat), CodecError>((key, folded_wire(todo[0].0).len())),
        folded_parse(folded_wire(todo[0].1) + (folded_wire_entries(todo.skip(1)) + rest)) == Ok::<
            (Value, nat),
            CodecError,
        >((value, folded_wire(todo[0].1).len())),
    ensures
        folded_wire_entries(todo).len() == folded_wire(todo[0].0).len() + folded_wire(
            todo[0].1,
        ).len() + folded_wire_entries(todo.skip(1)).len(),
        folded_parse_entries(folded_wire_entries(todo) + rest, todo.len(), acc) == shifted(
            folded_parse_entries(
                folded_wire_entries(todo.skip(1)) + rest,
                (todo.len() - 1) as nat,
                with_pair(acc, key, value),
            ),
            folded_wire(todo[0].0).len() + folded_wire(todo[0].1).len(),
        ),
{
    reveal(folded_parse);
    reveal(folded_parse_entries);
    let key_bytes = folded_wire(todo[0].0);
    let value_bytes = folded_wire(todo[0].1);
    let later = folded_wire_entries(todo.skip(1)) + rest;
    lemma_first_entry(todo);
    lemma_pair_then_entries_in_bytes(key_bytes, value_bytes, later, todo.len(), acc, key, value);
    assert(folded_wire_entries(todo) + rest =~= key_bytes + value_bytes + later);
}

/// No entries decode to what was read before.
proof fn lemma_no_entries(acc: Seq<(Value, Value)>, rest: Seq<u8>)
    ensures
        folded_wire_entries(Seq::empty()).len() == 0,
        folded_parse_entries(folded_wire_entries(Seq::empty()) + rest, 0, acc) == Ok::<
            (Seq<(Value, Value)>, nat),
            CodecError,
        >((acc, 0)),
{
    reveal(folded_wire_entries);
    reveal(folded_parse_entries);
}

/// Where entries can follow others in a canonical dictionary, the first of
/// them is added to the others as it stands, and the rest can follow.
proof fn lemma_extends_by_first(acc: Seq<(Value, Value)>, todo: Seq<(Value, Value)>)
    requires
        todo.len() > 0,
        extends(acc, todo),
    ensures
        canonical(todo[0].0),
        canonical(todo[0].1),
        with_pair(acc, todo[0].0, todo[0].1) == acc.push(todo[0]),
        acc.push(todo[0]) + todo.skip(1) == acc + todo,
        extends(acc.push(todo[0]), todo.skip(1)),
{
    reveal(extends);
    let all = acc + todo;
    let (key, value) = todo[0];
    let later = todo.skip(1);
    assert(all[acc.len() as int] == todo[0]);
    if has_key(acc, key) {
        let at = key_position(acc, key);
        assert(holds_key(acc, key, at));
        assert(all[at] == acc[at]);
        assert(false);
    }
    assert(acc.push(todo[0]) + later =~= all);
    assert forall|i: int| 0 <= i < later.len() implies !((#[trigger] later[i]).0 is Null)
        && canonical(later[i].0) && canonical(later[i].1) by {
        assert(later[i] == todo[i + 1]);
    }
}

/// The entries of a canonical dictionary can follow no entries.
proof fn lemma_extends_nothing(entries: Seq<(Value, Value)>)
    ensures
        canonical(Value::Dictionary(entries)) ==> extends(Seq::empty(), entries),
        Seq::<(Value, Value)>::empty() + entries == entries,
{
    reveal(extends);
    assert(Seq::<(Value, Value)>::empty() + entries =~= entries);
}

/// All but the first of representable entries are representable.
proof fn lemma_representable_rest(todo: Seq<(Value, Value)>)
    requires
        todo.len() > 0,
        representable_entries(todo),
    ensures
        representable(todo[0].0),
        representable(todo[0].1),
        representable_entries(todo.skip(1)),
{
    let later = todo.skip(1);
    assert forall|i: int| 0 <= i < later.len() implies representable((#[trigger] later[i]).0)
        && representable(later[i].1) by {
        assert(later[i] == todo[i + 1]);
    }
}

/// The induction behind `lemma_encoded_decodes`, over values.
proof fn lemma_value_round_trip(v: Value, rest: Seq<u8>)
    requires
        representable(v),
    ensures
        folded_parse(folded_wire(v) + rest) matches Ok((decoded, n)) && n == folded_wire(v).len()
            && (canonical(v) ==> decoded == v),
    decreases v,
{
    match v {
        Value::Dictionary(entries) => {
            lemma_entries_round_trip(entries, Seq::empty(), rest);
            let read = folded_parse_entries(
                folded_wire_entries(entries) + rest,
                entries.len(),
                Seq::empty(),
            )->Ok_0.0;
            lemma_dictionary_round_trip(entries, read, rest);
            lemma_extends_nothing(entries);
        },
        _ => {
            lemma_scalar_round_trip(v, rest);
        },
    }
}

/// The induction behind `lemma_encoded_decodes`, over the entries of a
/// dictionary.
proof fn lemma_entries_round_trip(
    todo: Seq<(Value, Value)>,
    acc: Seq<(Value, Value)>,
    rest: Seq<u8>,
)
    requires
        representable_entries(todo),
    ensures
        folded_parse_entries(folded_wire_entries(todo) + rest, todo.len(), acc) matches Ok(
            (entries, n),
        ) && n == folded_wire_entries(todo).len() && (extends(acc, todo) ==> entries == acc
            + todo),
    decreases todo,
{
    if todo.len() == 0 {
        lemma_no_entries(acc, rest);
        assert(todo =~= Seq::empty());
        assert(acc + todo =~= acc);
    } else {
        let later = todo.skip(1);
        let after_value = folded_wire_entries(later) + rest;
        let after_key = folded_wire(todo[0].1) + after_value;
        lemma_representable_rest(todo);
        lemma_value_round_trip(todo[0].0, after_key);
        lemma_value_round_trip(todo[0].1, after_value);
        let key = folded_parse(folded_wire(todo[0].0) + after_key)->Ok_0.0;
        let value = folded_parse(after_key)->Ok_0.0;
        lemma_pair_then_entries(todo, rest, acc, key, value);
        lemma_entries_round_trip(later, with_pair(acc, key, value), rest);
        if extends(acc, todo) {
            lemma_extends_by_first(acc, todo);
        }
    }
}

/// The encoding of a representable value decodes, whatever follows it, and
/// occupies exactly its own length; where the value is canonical, it decodes
/// to itself.
pub proof fn lemma_encoded_decodes(v: Value, rest: Seq<u8>)
    requires
        representable(v),
    ensures
        parse(wire(v) + rest) matches Ok((decoded, n)) && n == wire(v).len() && (canonical(v)
            ==> decoded == v),
{
    reveal(folded_wire);
    reveal(folded_parse);
    lemma_value_round_trip(v, rest);
}

} // verus!
