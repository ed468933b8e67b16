//! The wire layout, stated over mathematical values.
//!
//! `wire` gives the bytes that stand for a value and `parse` the value that
//! a buffer starts with, together with the number of bytes it occupies. The
//! encoder and the decoder are proved against these two functions.

use vstd::prelude::*;
use vstd::utf8::{decode_utf8, encode_utf8, valid_utf8};
use crate::byte_order::{
    field, le_u16, le_u32, le_u64, signed32, signed64, u16_le, u32_le, u64_le, unsigned32,
    unsigned64,
};
use crate::error::CodecError;
use crate::types::{GodotTypeIndex, SerializeFlag};

verus! {

/// What a variant stands for, apart from how it is held in memory. Floating
/// point components are kept as their IEEE-754 bit patterns.
pub enum Value {
    Null,
    Bool(bool),
    Integer(i64),
    /// A single-precision float, by its bit pattern.
    Float32(u32),
    /// A double-precision float, by its bit pattern.
    Float64(u64),
    Text(Seq<char>),
    Vector2 { x: u32, y: u32 },
    Vector3 { x: u32, y: u32, z: u32 },
    /// The entries of a dictionary, in insertion order.
    Dictionary(Seq<(Value, Value)>),
}

impl Value {
    /// The tag of the value's kind.
    pub open spec fn kind(self) -> GodotTypeIndex {
        match self {
            Value::Null => GodotTypeIndex::Nil,
            Value::Bool(_) => GodotTypeIndex::Bool,
            Value::Integer(_) => GodotTypeIndex::Integer,
            Value::Float32(_) => GodotTypeIndex::Float,
            Value::Float64(_) => GodotTypeIndex::Float,
            Value::Text(_) => GodotTypeIndex::String,
            Value::Vector2 { .. } => GodotTypeIndex::Vector2,
            Value::Vector3 { .. } => GodotTypeIndex::Vector3,
            Value::Dictionary(_) => GodotTypeIndex::Dictionary,
        }
    }

    /// The width flag that the value is encoded with: 64 bits for an integer
    /// outside the 32-bit range and for a double-precision float, the default
    /// for everything else.
    pub open spec fn flag(self) -> SerializeFlag {
        match self {
            Value::Integer(i) => if i32::MIN <= i <= i32::MAX {
                SerializeFlag::Bit32
            } else {
                SerializeFlag::Bit64
            },
            Value::Float64(_) => SerializeFlag::Bit64,
            _ => SerializeFlag::Bit32,
        }
    }
}

/// A decoded value and the number of bytes it occupied.
pub type Parsed = Result<(Value, nat), CodecError>;

/// Decoded dictionary entries and the number of bytes they occupied.
pub type ParsedEntries = Result<(Seq<(Value, Value)>, nat), CodecError>;

// ---------------------------------------------------------------------------
// Encoding
// ---------------------------------------------------------------------------

/// The four bytes that start every encoded value.
pub open spec fn header(tag: GodotTypeIndex, flag: SerializeFlag) -> Seq<u8> {
    u16_le(tag.spec_code()) + u16_le(flag.spec_code())
}

/// Number of zero bytes that follow a string payload of `len` bytes, so that
/// the next value starts at a multiple of four.
pub open spec fn padding(len: nat) -> nat {
    ((4 - len % 4) % 4) as nat
}

/// `n` zero bytes.
pub open spec fn zeros(n: nat) -> Seq<u8> {
    Seq::new(n, |i: int| 0u8)
}

/// What a length that may exceed 32 bits leaves in a 32-bit length field.
pub open spec fn length_field(len: nat) -> u32 {
    (len % 0x1_0000_0000) as u32
}

/// The bytes that stand for a boolean.
pub open spec fn wire_bool(b: bool) -> Seq<u8> {
    header(GodotTypeIndex::Bool, SerializeFlag::Bit32) + u32_le(
        if b {
            1
        } else {
            0
        },
    )
}

/// The bytes that stand for an integer at 32-bit width.
pub open spec fn wire_int32(i: i32) -> Seq<u8> {
    header(GodotTypeIndex::Integer, SerializeFlag::Bit32) + u32_le(unsigned32(i))
}

/// The bytes that stand for an integer at 64-bit width.
pub open spec fn wire_int64(i: i64) -> Seq<u8> {
    header(GodotTypeIndex::Integer, SerializeFlag::Bit64) + u64_le(unsigned64(i))
}

/// The bytes that stand for an integer: at 32-bit width where the number fits
/// in it, at 64-bit width where it does not.
pub open spec fn wire_int(i: i64) -> Seq<u8> {
    if i32::MIN <= i <= i32::MAX {
        wire_int32(i as i32)
    } else {
        wire_int64(i)
    }
}

/// The bytes that stand for a single-precision float.
pub open spec fn wire_float32(bits: u32) -> Seq<u8> {
    header(GodotTypeIndex::Float, SerializeFlag::Bit32) + u32_le(bits)
}

/// The bytes that stand for a double-precision float.
pub open spec fn wire_float64(bits: u64) -> Seq<u8> {
    header(GodotTypeIndex::Float, SerializeFlag::Bit64) + u64_le(bits)
}

/// The UTF-8 form of text that holds ASCII characters alone: one byte for
/// each character, with its code.
pub open spec fn ascii_bytes(text: Seq<char>) -> Seq<u8> {
    Seq::new(text.len(), |i: int| text[i] as u8)
}

/// The text whose UTF-8 form is `bytes`, where every byte is below 128: one
/// character for each byte, with its code.
pub open spec fn ascii_text(bytes: Seq<u8>) -> Seq<char> {
    Seq::new(bytes.len(), |i: int| bytes[i] as char)
}

/// Whether every byte is below 128.
pub open spec fn is_ascii_bytes(bytes: Seq<u8>) -> bool {
    forall|i: int| 0 <= i < bytes.len() ==> #[trigger] bytes[i] < 0x80
}

/// The bytes that stand for a string whose UTF-8 form is `payload`: header,
/// length, payload, and zeros up to the next multiple of four. For text that
/// holds ASCII characters alone the payload is `ascii_bytes` of the text.
pub open spec fn wire_text(payload: Seq<u8>) -> Seq<u8> {
    header(GodotTypeIndex::String, SerializeFlag::Bit32) + u32_le(length_field(payload.len()))
        + payload + zeros(padding(payload.len()))
}

/// The bytes that stand for a 2D vector.
pub open spec fn wire_vector2(x: u32, y: u32) -> Seq<u8> {
    header(GodotTypeIndex::Vector2, SerializeFlag::Bit32) + u32_le(x) + u32_le(y)
}

/// The bytes that stand for a 3D vector.
pub open spec fn wire_vector3(x: u32, y: u32, z: u32) -> Seq<u8> {
    header(GodotTypeIndex::Vector3, SerializeFlag::Bit32) + u32_le(x) + u32_le(y) + u32_le(z)
}

/// The bytes that stand for a value.
pub open spec fn wire(v: Value) -> Seq<u8>
    decreases v,
{
    match v {
        Value::Null => header(GodotTypeIndex::Nil, SerializeFlag::Bit32),
        Value::Bool(b) => wire_bool(b),
        Value::Integer(i) => wire_int(i),
        Value::Float32(bits) => wire_float32(bits),
        Value::Float64(bits) => wire_float64(bits),
        Value::Text(text) => wire_text(encode_utf8(text)),
        Value::Vector2 { x, y } => wire_vector2(x, y),
        Value::Vector3 { x, y, z } => wire_vector3(x, y, z),
        Value::Dictionary(entries) => wire_dictionary(entries),
    }
}

/// The bytes that stand for a dictionary: header, entry count, and the
/// entries in order.
pub open spec fn wire_dictionary(entries: Seq<(Value, Value)>) -> Seq<u8>
    decreases entries, 1nat,
{
    header(GodotTypeIndex::Dictionary, SerializeFlag::Bit32) + u32_le(length_field(entries.len()))
        + wire_entries(entries)
}

/// The bytes of each key followed by those of its value, entry after entry.
pub open spec fn wire_entries(entries: Seq<(Value, Value)>) -> Seq<u8>
    decreases entries, 0nat,
{
    if entries.len() == 0 {
        Seq::empty()
    } else {
        wire(entries[0].0) + wire(entries[0].1) + wire_entries(entries.skip(1))
    }
}

// ---------------------------------------------------------------------------
// Dictionary entries
// ---------------------------------------------------------------------------

/// Whether entry `i` of `entries` has a key with the same canonical bytes as
/// `key`. Keys are told apart by their canonical bytes.
pub open spec fn holds_key(entries: Seq<(Value, Value)>, key: Value, i: int) -> bool {
    0 <= i < entries.len() && wire(entries[i].0) == wire(key)
}

/// Whether some entry has the key.
pub open spec fn has_key(entries: Seq<(Value, Value)>, key: Value) -> bool {
    exists|i: int| holds_key(entries, key, i)
}

/// The position of an entry that has the key, where there is one.
pub open spec fn key_position(entries: Seq<(Value, Value)>, key: Value) -> int {
    choose|i: int| holds_key(entries, key, i)
}

/// The value stored under the key, if any.
pub open spec fn lookup(entries: Seq<(Value, Value)>, key: Value) -> Option<Value> {
    if has_key(entries, key) {
        Some(entries[key_position(entries, key)].1)
    } else {
        None
    }
}

/// The entries after an insertion: the value replaces that of the entry with
/// the same key, which keeps its key and its place, or else the pair goes
/// last.
pub open spec fn upsert(entries: Seq<(Value, Value)>, key: Value, value: Value) -> Seq<
    (Value, Value),
> {
    if has_key(entries, key) {
        let i = key_position(entries, key);
        entries.update(i, (entries[i].0, value))
    } else {
        entries.push((key, value))
    }
}

/// The entries after a pair was read from a buffer: a pair whose key is null
/// is left out, and any other is inserted.
pub open spec fn with_pair(entries: Seq<(Value, Value)>, key: Value, value: Value) -> Seq<
    (Value, Value),
> {
    if key is Null {
        entries
    } else {
        upsert(entries, key, value)
    }
}

/// No two entries have keys with the same canonical bytes.
pub open spec fn distinct_keys(entries: Seq<(Value, Value)>) -> bool {
    forall|i: int, j: int|
        0 <= i < entries.len() && 0 <= j < entries.len() && wire(#[trigger] entries[i].0) == wire(
            #[trigger] entries[j].0,
        ) ==> i == j
}

// ---------------------------------------------------------------------------
// Decoding
// ---------------------------------------------------------------------------

/// The tag and the flag that a buffer starts with.
pub open spec fn parse_header(b: Seq<u8>) -> Result<(GodotTypeIndex, SerializeFlag), CodecError> {
    if b.len() < 4 {
        Err(CodecError::TruncatedBuffer)
    } else {
        match GodotTypeIndex::of_code(le_u16(field(b, 0, 2))) {
            None => Err(CodecError::UnsupportedType),
            Some(tag) => Ok((tag, SerializeFlag::of_header(le_u16(field(b, 2, 2))))),
        }
    }
}

/// A boolean payload: true exactly when the 32-bit integer after the header
/// is one.
pub open spec fn parse_bool(b: Seq<u8>) -> Parsed {
    if b.len() < 8 {
        Err(CodecError::TruncatedBuffer)
    } else {
        Ok((Value::Bool(signed32(le_u32(field(b, 4, 4))) == 1), 8))
    }
}

/// An integer payload of the width that the flag gives, starting at `offset`.
pub open spec fn parse_raw_int(b: Seq<u8>, offset: nat, flag: SerializeFlag) -> Parsed {
    let width = flag.spec_width();
    if b.len() < 4 + width || b.len() < offset + width {
        Err(CodecError::TruncatedBuffer)
    } else if flag == SerializeFlag::Bit64 {
        Ok((Value::Integer(signed64(le_u64(field(b, offset as int, 8)))), 4 + width))
    } else {
        Ok((Value::Integer(signed32(le_u32(field(b, offset as int, 4))) as i64), 4 + width))
    }
}

/// A float payload of the width that the flag gives, starting at `offset`.
pub open spec fn parse_raw_float(b: Seq<u8>, offset: nat, flag: SerializeFlag) -> Parsed {
    let width = flag.spec_width();
    if b.len() < 4 + width || b.len() < offset + width {
        Err(CodecError::TruncatedBuffer)
    } else if flag == SerializeFlag::Bit64 {
        Ok((Value::Float64(le_u64(field(b, offset as int, 8))), 4 + width))
    } else {
        Ok((Value::Float32(le_u32(field(b, offset as int, 4))), 4 + width))
    }
}

/// A string payload: a 32-bit length, that many bytes of UTF-8, and zeros up
/// to the next multiple of four.
pub open spec fn parse_string(b: Seq<u8>) -> Parsed {
    if b.len() < 8 {
        Err(CodecError::TruncatedBuffer)
    } else {
        let len = le_u32(field(b, 4, 4)) as nat;
        let total = 8 + len + padding(len);
        if b.len() < total {
            Err(CodecError::TruncatedBuffer)
        } else if !valid_utf8(string_payload(b)) {
            Err(CodecError::InvalidText)
        } else {
            Ok((Value::Text(decode_utf8(string_payload(b))), total))
        }
    }
}

/// The payload of a string: the bytes after the length field, as many as
/// that field says.
pub open spec fn string_payload(b: Seq<u8>) -> Seq<u8> {
    b.subrange(8, 8 + le_u32(field(b, 4, 4)))
}

/// A 2D vector payload: two single-precision floats.
pub open spec fn parse_vector2(b: Seq<u8>) -> Parsed {
    if b.len() < 12 {
        Err(CodecError::TruncatedBuffer)
    } else {
        Ok((Value::Vector2 { x: le_u32(field(b, 4, 4)), y: le_u32(field(b, 8, 4)) }, 12))
    }
}

/// A 3D vector payload: three single-precision floats.
pub open spec fn parse_vector3(b: Seq<u8>) -> Parsed {
    if b.len() < 16 {
        Err(CodecError::TruncatedBuffer)
    } else {
        Ok(
            (
                Value::Vector3 {
                    x: le_u32(field(b, 4, 4)),
                    y: le_u32(field(b, 8, 4)),
                    z: le_u32(field(b, 12, 4)),
                },
                16,
            ),
        )
    }
}

/// What is left of `b` after its first `n` bytes.
pub open spec fn rest_after(b: Seq<u8>, n: nat) -> Seq<u8> {
    if n <= b.len() {
        b.skip(n as int)
    } else {
        Seq::empty()
    }
}

/// The value that a buffer starts with and the number of bytes it occupies,
/// or the reason why there is none.
pub open spec fn parse(b: Seq<u8>) -> Parsed
    decreases b.len(), 1nat,
{
    match parse_header(b) {
        Err(e) => Err(e),
        Ok((tag, flag)) => match tag {
            GodotTypeIndex::Nil => Ok((Value::Null, 4)),
            GodotTypeIndex::Bool => parse_bool(b),
            GodotTypeIndex::Integer => parse_raw_int(b, 4, flag),
            GodotTypeIndex::Float => parse_raw_float(b, 4, flag),
            GodotTypeIndex::String => parse_string(b),
            GodotTypeIndex::Vector2 => parse_vector2(b),
            GodotTypeIndex::Vector3 => parse_vector3(b),
            GodotTypeIndex::Dictionary => parse_dictionary(b),
            GodotTypeIndex::Unsupported(_) => Err(CodecError::UnsupportedType),
        },
    }
}

/// A dictionary payload: a 32-bit entry count and that many pairs of a key
/// and a value, back to back.
pub open spec fn parse_dictionary(b: Seq<u8>) -> Parsed
    decreases b.len(), 0nat,
{
    if b.len() < 8 {
        Err(CodecError::TruncatedBuffer)
    } else {
        as_dictionary(parse_entries(b.skip(8), le_u32(field(b, 4, 4)) as nat, Seq::empty()), 8)
    }
}

/// Entries that were read `by` bytes further on, counted from the start.
pub open spec fn shifted(entries: ParsedEntries, by: nat) -> ParsedEntries {
    match entries {
        Ok((entries, n)) => Ok((entries, n + by)),
        Err(e) => Err(e),
    }
}

/// The dictionary of the entries that were read after the first `start`
/// bytes of a buffer.
pub open spec fn as_dictionary(entries: ParsedEntries, start: nat) -> Parsed {
    match entries {
        Err(e) => Err(e),
        Ok((entries, n)) => Ok((Value::Dictionary(entries), start + n)),
    }
}

/// Reads `count` pairs from the start of `b` into the entries `acc`. Each key
/// and each value is read in full, so the position advances past both; a pair
/// whose key is null is then left out, and any other is inserted. The first
/// pair that cannot be read fails the whole.
pub open spec fn parse_entries(b: Seq<u8>, count: nat, acc: Seq<(Value, Value)>) -> ParsedEntries
    decreases b.len(), count + 2,
{
    if count == 0 {
        Ok((acc, 0))
    } else {
        match parse(b) {
            Err(e) => Err(e),
            Ok((key, key_len)) => {
                let after_key = rest_after(b, key_len);
                match parse(after_key) {
                    Err(e) => Err(e),
                    Ok((value, value_len)) => shifted(
                        parse_entries(
                            rest_after(after_key, value_len),
                            (count - 1) as nat,
                            with_pair(acc, key, value),
                        ),
                        key_len + value_len,
                    ),
                }
            },
        }
    }
}

} // verus!
