//! The shape of encoded values, kind by kind.

use vstd::prelude::*;
use vstd::utf8::{
    decode_utf8, encode_utf8, encode_utf8_decode_utf8, encode_utf8_valid_utf8, is_ascii_chars,
    is_ascii_chars_encode_utf8, valid_utf8,
};
use crate::byte_order::{
    field, le_u32, le_u64, lemma_signed32, lemma_signed64, lemma_u16_le, lemma_u32_le,
    lemma_u64_le, u16_le, u32_le, u64_le, unsigned32, unsigned64,
};
use crate::error::CodecError;
use crate::layout::{
    ascii_bytes, ascii_text, header, is_ascii_bytes, length_field, padding, parse, parse_header,
    wire_bool, wire_float32, wire_float64, wire_int, wire_text, wire_vector2, wire_vector3, zeros,
    Value,
};
use crate::types::{GodotTypeIndex, SerializeFlag};

verus! {

/// A header reads back as the tag and the flag it was written from.
pub proof fn lemma_header(tag: GodotTypeIndex, flag: SerializeFlag, body: Seq<u8>)
    requires
        tag.spec_is_supported(),
    ensures
        header(tag, flag).len() == 4,
        parse_header(header(tag, flag) + body) == Ok::<(GodotTypeIndex, SerializeFlag), CodecError>(
            (tag, flag),
        ),
{
    let b = header(tag, flag) + body;
    lemma_u16_le(tag.spec_code());
    lemma_u16_le(flag.spec_code());
    assert(field(b, 0, 2) =~= u16_le(tag.spec_code()));
    assert(field(b, 2, 2) =~= u16_le(flag.spec_code()));
}

/// The 32-bit number in a buffer that holds its bytes after `front`.
pub(crate) proof fn lemma_field32(front: Seq<u8>, x: u32, rest: Seq<u8>)
    ensures
        le_u32(field(front + u32_le(x) + rest, front.len() as int, 4)) == x,
        (front + u32_le(x) + rest).len() == front.len() + 4 + rest.len(),
{
    let b = front + u32_le(x) + rest;
    lemma_u32_le(x);
    assert(field(b, front.len() as int, 4) =~= u32_le(x));
}

/// The 64-bit number in a buffer that holds its bytes after `front`.
pub(crate) proof fn lemma_field64(front: Seq<u8>, x: u64, rest: Seq<u8>)
    ensures
        le_u64(field(front + u64_le(x) + rest, front.len() as int, 8)) == x,
        (front + u64_le(x) + rest).len() == front.len() + 8 + rest.len(),
{
    let b = front + u64_le(x) + rest;
    lemma_u64_le(x);
    assert(field(b, front.len() as int, 8) =~= u64_le(x));
}

/// An encoded boolean decodes to itself, whatever follows it.
pub(crate) proof fn lemma_bool_round_trip(value: bool, rest: Seq<u8>)
    ensures
        wire_bool(value).len() == 8,
        parse(wire_bool(value) + rest) == Ok::<(Value, nat), CodecError>((Value::Bool(value), 8)),
{
    let head = header(GodotTypeIndex::Bool, SerializeFlag::Bit32);
    let x: u32 = if value {
        1
    } else {
        0
    };
    lemma_header(GodotTypeIndex::Bool, SerializeFlag::Bit32, u32_le(x) + rest);
    lemma_field32(head, x, rest);
    assert(wire_bool(value) + rest =~= head + (u32_le(x) + rest));
    assert(wire_bool(value) + rest =~= head + u32_le(x) + rest);
}

/// An encoded integer decodes to itself, whatever follows it.
pub(crate) proof fn lemma_int_round_trip(value: i64, rest: Seq<u8>)
    ensures
        wire_int(value).len() == (if i32::MIN <= value <= i32::MAX {
            8nat
        } else {
            12nat
        }),
        parse(wire_int(value) + rest) == Ok::<(Value, nat), CodecError>(
            (Value::Integer(value), wire_int(value).len()),
        ),
{
    lemma_signed64(value);
    if i32::MIN <= value <= i32::MAX {
        let head = header(GodotTypeIndex::Integer, SerializeFlag::Bit32);
        let x = unsigned32(value as i32);
        lemma_signed32(value as i32);
        lemma_header(GodotTypeIndex::Integer, SerializeFlag::Bit32, u32_le(x) + rest);
        lemma_field32(head, x, rest);
        assert(wire_int(value) + rest =~= head + (u32_le(x) + rest));
        assert(wire_int(value) + rest =~= head + u32_le(x) + rest);
    } else {
        let head = header(GodotTypeIndex::Integer, SerializeFlag::Bit64);
        let x = unsigned64(value);
        lemma_header(GodotTypeIndex::Integer, SerializeFlag::Bit64, u64_le(x) + rest);
        lemma_field64(head, x, rest);
        assert(wire_int(value) + rest =~= head + (u64_le(x) + rest));
        assert(wire_int(value) + rest =~= head + u64_le(x) + rest);
    }
}

/// An encoded single-precision float decodes to itself, whatever follows it.
pub(crate) proof fn lemma_float32_round_trip(bits: u32, rest: Seq<u8>)
    ensures
        wire_float32(bits).len() == 8,
        parse(wire_float32(bits) + rest) == Ok::<(Value, nat), CodecError>(
            (Value::Float32(bits), 8),
        ),
{
    let head = header(GodotTypeIndex::Float, SerializeFlag::Bit32);
    lemma_header(GodotTypeIndex::Float, SerializeFlag::Bit32, u32_le(bits) + rest);
    lemma_field32(head, bits, rest);
    assert(wire_float32(bits) + rest =~= head + (u32_le(bits) + rest));
    assert(wire_float32(bits) + rest =~= head + u32_le(bits) + rest);
}

/// An encoded double-precision float decodes to itself, whatever follows it.
pub(crate) proof fn lemma_float64_round_trip(bits: u64, rest: Seq<u8>)
    ensures
        wire_float64(bits).len() == 12,
        parse(wire_float64(bits) + rest) == Ok::<(Value, nat), CodecError>(
            (Value::Float64(bits), 12),
        ),
{
    let head = header(GodotTypeIndex::Float, SerializeFlag::Bit64);
    lemma_header(GodotTypeIndex::Float, SerializeFlag::Bit64, u64_le(bits) + rest);
    lemma_field64(head, bits, rest);
    assert(wire_float64(bits) + rest =~= head + (u64_le(bits) + rest));
    assert(wire_float64(bits) + rest =~= head + u64_le(bits) + rest);
}

/// An encoded 2D vector decodes to itself, whatever follows it.
pub(crate) proof fn lemma_vector2_round_trip(x: u32, y: u32, rest: Seq<u8>)
    ensures
        wire_vector2(x, y).len() == 12,
        parse(wire_vector2(x, y) + rest) == Ok::<(Value, nat), CodecError>(
            (Value::Vector2 { x, y }, 12),
        ),
{
    let head = header(GodotTypeIndex::Vector2, SerializeFlag::Bit32);
    let b = wire_vector2(x, y) + rest;
    lemma_header(GodotTypeIndex::Vector2, SerializeFlag::Bit32, u32_le(x) + u32_le(y) + rest);
    lemma_field32(head, x, u32_le(y) + rest);
    lemma_field32(head + u32_le(x), y, rest);
    assert(b =~= head + (u32_le(x) + u32_le(y) + rest));
    assert(b =~= head + u32_le(x) + (u32_le(y) + rest));
    assert(b =~= head + u32_le(x) + u32_le(y) + rest);
}

/// An encoded 3D vector decodes to itself, whatever follows it.
pub(crate) proof fn lemma_vector3_round_trip(x: u32, y: u32, z: u32, rest: Seq<u8>)
    ensures
        wire_vector3(x, y, z).len() == 16,
        parse(wire_vector3(x, y, z) + rest) == Ok::<(Value, nat), CodecError>(
            (Value::Vector3 { x, y, z }, 16),
        ),
{
    let head = header(GodotTypeIndex::Vector3, SerializeFlag::Bit32);
    let b = wire_vector3(x, y, z) + rest;
    lemma_header(
        GodotTypeIndex::Vector3,
        SerializeFlag::Bit32,
        u32_le(x) + u32_le(y) + u32_le(z) + rest,
    );
    lemma_field32(head, x, u32_le(y) + u32_le(z) + rest);
    lemma_field32(head + u32_le(x), y, u32_le(z) + rest);
    lemma_field32(head + u32_le(x) + u32_le(y), z, rest);
    assert(b =~= head + (u32_le(x) + u32_le(y) + u32_le(z) + rest));
    assert(b =~= head + u32_le(x) + (u32_le(y) + u32_le(z) + rest));
    assert(b =~= head + u32_le(x) + u32_le(y) + (u32_le(z) + rest));
    assert(b =~= head + u32_le(x) + u32_le(y) + u32_le(z) + rest);
}

/// The length of an encoded string: header, length field, payload and
/// padding, which together are a multiple of four.
pub(crate) proof fn lemma_text_length(payload: Seq<u8>)
    ensures
        wire_text(payload).len() == 8 + payload.len() + padding(payload.len()),
        wire_text(payload).len() % 4 == 0,
        padding(payload.len()) == (if payload.len() % 4 == 0 {
            0nat
        } else if payload.len() % 4 == 1 {
            3nat
        } else if payload.len() % 4 == 2 {
            2nat
        } else {
            1nat
        }),
{
    lemma_header(GodotTypeIndex::String, SerializeFlag::Bit32, Seq::empty());
    lemma_u32_le(length_field(payload.len()));
}

/// The parts of an encoded string, whatever follows it: its header, the
/// length in its length field, and its payload.
pub(crate) proof fn lemma_text_parts(payload: Seq<u8>, rest: Seq<u8>)
    requires
        payload.len() <= u32::MAX,
    ensures
        parse_header(wire_text(payload) + rest) == Ok::<(GodotTypeIndex, SerializeFlag), CodecError>(
            (GodotTypeIndex::String, SerializeFlag::Bit32),
        ),
        le_u32(field(wire_text(payload) + rest, 4, 4)) == payload.len(),
        (wire_text(payload) + rest).subrange(8, 8 + payload.len() as int) == payload,
        (wire_text(payload) + rest).len() == wire_text(payload).len() + rest.len(),
{
    let head = header(GodotTypeIndex::String, SerializeFlag::Bit32);
    let len = length_field(payload.len());
    let tail = payload + zeros(padding(payload.len())) + rest;
    let b = wire_text(payload) + rest;
    lemma_header(GodotTypeIndex::String, SerializeFlag::Bit32, u32_le(len) + tail);
    lemma_field32(head, len, tail);
    assert(b =~= head + (u32_le(len) + tail));
    assert(b =~= head + u32_le(len) + tail);
    assert(b.subrange(8, 8 + payload.len() as int) =~= payload);
}

/// An encoded string decodes to itself, whatever follows it, provided that
/// the length of its UTF-8 form fits in 32 bits.
pub(crate) proof fn lemma_text_round_trip(text: Seq<char>, rest: Seq<u8>)
    requires
        encode_utf8(text).len() <= u32::MAX,
    ensures
        parse(wire_text(encode_utf8(text)) + rest) == Ok::<(Value, nat), CodecError>(
            (Value::Text(text), wire_text(encode_utf8(text)).len()),
        ),
{
    let payload = encode_utf8(text);
    lemma_text_length(payload);
    lemma_text_parts(payload, rest);
    encode_utf8_valid_utf8(text);
    encode_utf8_decode_utf8(text);
}

/// Text that holds ASCII characters alone has one byte for each character.
pub proof fn lemma_ascii_text(text: Seq<char>)
    requires
        is_ascii_chars(text),
    ensures
        encode_utf8(text) == ascii_bytes(text),
{
    is_ascii_chars_encode_utf8(text);
    assert(encode_utf8(text) =~= ascii_bytes(text));
}

/// Bytes below 128 are valid UTF-8, and the text they hold has one character
/// for each byte.
pub proof fn lemma_ascii_bytes(bytes: Seq<u8>)
    requires
        is_ascii_bytes(bytes),
    ensures
        valid_utf8(bytes),
        decode_utf8(bytes) == ascii_text(bytes),
{
    let text = ascii_text(bytes);
    assert(is_ascii_chars(text)) by {
        assert forall|i: int| 0 <= i < text.len() implies '\0' <= #[trigger] text[i]
            <= '\u{7f}' by {
            assert(bytes[i] < 0x80);
        }
    }
    is_ascii_chars_encode_utf8(text);
    assert(encode_utf8(text) =~= bytes) by {
        assert forall|i: int| 0 <= i < bytes.len() implies encode_utf8(text)[i] == bytes[i] by {
            assert(text[i] as u8 == encode_utf8(text)[i]);
            assert(bytes[i] < 0x80);
        }
    }
    encode_utf8_valid_utf8(text);
    encode_utf8_decode_utf8(text);
}

} // verus!
