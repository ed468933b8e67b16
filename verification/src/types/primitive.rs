//! The scalar variants: null, boolean, integer, float and string.

use vstd::prelude::*;
use vstd::utf8::encode_utf8;
use crate::encoder::Encoder;
use crate::laws::shapes::lemma_text_length;
use crate::layout::{padding, wire_text, Value};
use crate::types::variant::{GodotVariant, Variant};
use crate::types::{GodotTypeIndex, TYPE_PADDING};

verus! {

/// The null variant.
#[derive(Debug, Clone, Copy)]
pub struct GodotNull;

/// An integer variant. The number is held at 64 bits whatever its encoded
/// width; `byte_size` records the width it was built or decoded with.
#[derive(Debug, Clone, Copy)]
pub struct GodotInteger {
    pub value: i64,
    pub byte_size: usize,
}

/// A float variant, held as an IEEE-754 bit pattern. `byte_size` selects the
/// width: above `TYPE_PADDING + BIT_32_SIZE` the 64 bits of `bits` are a
/// double-precision number, otherwise the low 32 bits of `bits` are a
/// single-precision number.
#[derive(Debug, Clone, Copy)]
pub struct GodotFloat {
    pub bits: u64,
    pub byte_size: usize,
}

/// A string variant. `byte_size` records the encoded length.
#[derive(Debug, Hash, PartialEq, Eq, Clone)]
pub struct GodotString {
    pub value: String,
    pub byte_size: usize,
}

/// A boolean variant.
#[derive(Debug, Clone, Copy)]
pub struct GodotBool {
    pub value: bool,
}

impl GodotInteger {
    /// Payload bytes of an integer at 32-bit width.
    pub const BIT_32_SIZE: usize = 4;

    /// Payload bytes of an integer at 64-bit width.
    pub const BIT_64_SIZE: usize = 8;

    /// An integer built from a 32-bit number.
    pub fn new_from_i32(v: i32) -> (integer: Self)
        ensures
            integer.value == v,
            integer.byte_size == 8,
    {
        Self { value: v as i64, byte_size: TYPE_PADDING as usize + Self::BIT_32_SIZE }
    }

    /// An integer built from a 64-bit number.
    pub fn new_from_i64(v: i64) -> (integer: Self)
        ensures
            integer.value == v,
            integer.byte_size == 12,
    {
        Self { value: v, byte_size: TYPE_PADDING as usize + Self::BIT_64_SIZE }
    }
}

impl GodotFloat {
    /// Payload bytes of a single-precision float.
    pub const BIT_32_SIZE: usize = 4;

    /// Payload bytes of a double-precision float.
    pub const BIT_64_SIZE: usize = 8;

    /// Whether the float is held at double precision.
    pub open spec fn spec_is_wide(&self) -> bool {
        self.byte_size > 8
    }

    /// The bit pattern of the float when it is held at single precision.
    pub open spec fn spec_narrow_bits(&self) -> u32 {
        (self.bits % 0x1_0000_0000) as u32
    }

    /// A single-precision float, from its bit pattern.
    pub fn new_from_f32(bits: u32) -> (float: Self)
        ensures
            float.bits == bits,
            float.byte_size == 8,
            !float.spec_is_wide(),
            float.spec_narrow_bits() == bits,
    {
        Self { bits: bits as u64, byte_size: TYPE_PADDING as usize + Self::BIT_32_SIZE }
    }

    /// A double-precision float, from its bit pattern.
    pub fn new_from_f64(bits: u64) -> (float: Self)
        ensures
            float.bits == bits,
            float.byte_size == 12,
            float.spec_is_wide(),
    {
        Self { bits, byte_size: TYPE_PADDING as usize + Self::BIT_64_SIZE }
    }

    /// Whether the float is held at double precision.
    pub fn is_wide(&self) -> (wide: bool)
        ensures
            wide == self.spec_is_wide(),
    {
        self.byte_size > TYPE_PADDING as usize + Self::BIT_32_SIZE
    }

    /// The bit pattern of the float when it is held at single precision.
    pub fn narrow_bits(&self) -> (bits: u32)
        ensures
            bits == self.spec_narrow_bits(),
    {
        let bits = self.bits;
        assert(bits & 0xffff_ffff == bits % 0x1_0000_0000) by (bit_vector);
        assert(bits & 0xffff_ffff < 0x1_0000_0000) by (bit_vector);
        (bits & 0xffff_ffff) as u32
    }
}

impl GodotString {
    /// The encoded length of a string whose UTF-8 form has `len` bytes, as
    /// far as a `usize` can hold it.
    pub open spec fn spec_size_of(len: nat) -> usize {
        if 8 + len + padding(len) <= usize::MAX {
            (8 + len + padding(len)) as usize
        } else {
            usize::MAX
        }
    }

    /// A string variant that holds a copy of `s` and records the length of
    /// its encoding.
    pub fn new(s: &str) -> (string: Self)
        ensures
            string.value@ == s@,
            string.byte_size == Self::spec_size_of(encode_utf8(s@).len()),
            wire_text(encode_utf8(s@)).len() <= usize::MAX ==> string.byte_size == wire_text(
                encode_utf8(s@),
            ).len(),
    {
        proof {
            lemma_text_length(encode_utf8(s@));
        }
        let length: usize = s.as_bytes().len();
        let pad: usize = (4 - (length % 4)) % 4;
        Self { value: s.to_owned(), byte_size: length.saturating_add(8).saturating_add(pad) }
    }
}

impl GodotBool {
    /// Payload bytes of a boolean.
    pub const BIT_SIZE: usize = 4;

    /// A boolean variant.
    pub fn new(value: bool) -> (b: Self)
        ensures
            b.value == value,
    {
        Self { value }
    }
}

impl GodotVariant for GodotNull {
    open spec fn value(&self) -> Value {
        Value::Null
    }

    open spec fn spec_byte_length(&self) -> nat {
        4
    }

    open spec fn spec_of_variant(variant: &Variant) -> Option<&GodotNull> {
        match variant {
            Variant::Null(null) => Some(null),
            _ => None,
        }
    }

    open spec fn stands_for(value: Value) -> bool {
        value is Null
    }

    fn kind(&self) -> (tag: GodotTypeIndex) {
        GodotTypeIndex::Nil
    }

    fn byte_length(&self) -> (length: usize) {
        TYPE_PADDING as usize
    }

    fn variant_eq(&self, other: &Variant) -> (equal: bool) {
        other.is_null()
    }

    fn bytes(&self) -> (bytes: Vec<u8>) {
        Encoder::encode_null()
    }

    fn to_variant(self) -> (variant: Variant) {
        Variant::Null(self)
    }

    fn of_variant(variant: &Variant) -> (found: Option<&GodotNull>) {
        match variant {
            Variant::Null(null) => Some(null),
            _ => None,
        }
    }
}

impl GodotVariant for GodotInteger {
    open spec fn value(&self) -> Value {
        Value::Integer(self.value)
    }

    open spec fn spec_byte_length(&self) -> nat {
        self.byte_size as nat
    }

    open spec fn spec_of_variant(variant: &Variant) -> Option<&GodotInteger> {
        match variant {
            Variant::Integer(integer) => Some(integer),
            _ => None,
        }
    }

    open spec fn stands_for(value: Value) -> bool {
        value is Integer
    }

    fn kind(&self) -> (tag: GodotTypeIndex) {
        GodotTypeIndex::Integer
    }

    fn byte_length(&self) -> (length: usize) {
        self.byte_size
    }

    fn variant_eq(&self, other: &Variant) -> (equal: bool) {
        match other {
            Variant::Integer(other) => self.value == other.value,
            _ => false,
        }
    }

    fn bytes(&self) -> (bytes: Vec<u8>) {
        Encoder::encode_int(self).unwrap()
    }

    fn to_variant(self) -> (variant: Variant) {
        Variant::Integer(self)
    }

    fn of_variant(variant: &Variant) -> (found: Option<&GodotInteger>) {
        match variant {
            Variant::Integer(integer) => Some(integer),
            _ => None,
        }
    }
}

impl GodotVariant for GodotFloat {
    open spec fn value(&self) -> Value {
        if self.spec_is_wide() {
            Value::Float64(self.bits)
        } else {
            Value::Float32(self.spec_narrow_bits())
        }
    }

    open spec fn spec_byte_length(&self) -> nat {
        self.byte_size as nat
    }

    open spec fn spec_of_variant(variant: &Variant) -> Option<&GodotFloat> {
        match variant {
            Variant::Float(float) => Some(float),
            _ => None,
        }
    }

    open spec fn stands_for(value: Value) -> bool {
        value is Float32 || value is Float64
    }

    fn kind(&self) -> (tag: GodotTypeIndex) {
        GodotTypeIndex::Float
    }

    fn byte_length(&self) -> (length: usize) {
        self.byte_size
    }

    fn variant_eq(&self, other: &Variant) -> (equal: bool) {
        match other {
            Variant::Float(other) => {
                if self.is_wide() {
                    other.is_wide() && self.bits == other.bits
                } else {
                    !other.is_wide() && self.narrow_bits() == other.narrow_bits()
                }
            },
            _ => false,
        }
    }

    fn bytes(&self) -> (bytes: Vec<u8>) {
        Encoder::encode_float(self).unwrap()
    }

    fn to_variant(self) -> (variant: Variant) {
        Variant::Float(self)
    }

    fn of_variant(variant: &Variant) -> (found: Option<&GodotFloat>) {
        match variant {
            Variant::Float(float) => Some(float),
            _ => None,
        }
    }
}

impl GodotVariant for GodotString {
    open spec fn value(&self) -> Value {
        Value::Text(self.value@)
    }

    open spec fn spec_byte_length(&self) -> nat {
        self.byte_size as nat
    }

    open spec fn spec_of_variant(variant: &Variant) -> Option<&GodotString> {
        match variant {
            Variant::String(string) => Some(string),
            _ => None,
        }
    }

    open spec fn stands_for(value: Value) -> bool {
        value is Text
    }

    fn kind(&self) -> (tag: GodotTypeIndex) {
        GodotTypeIndex::String
    }

    fn byte_length(&self) -> (length: usize) {
        self.byte_size
    }

    fn variant_eq(&self, other: &Variant) -> (equal: bool) {
        match other {
            Variant::String(other) => self.value == other.value,
            _ => false,
        }
    }

    fn bytes(&self) -> (bytes: Vec<u8>) {
        Encoder::encode_string(self).unwrap()
    }

    fn to_variant(self) -> (variant: Variant) {
        Variant::String(self)
    }

    fn of_variant(variant: &Variant) -> (found: Option<&GodotString>) {
        match variant {
            Variant::String(string) => Some(string),
            _ => None,
        }
    }
}

impl GodotVariant for GodotBool {
    open spec fn value(&self) -> Value {
        Value::Bool(self.value)
    }

    open spec fn spec_byte_length(&self) -> nat {
        8
    }

    open spec fn spec_of_variant(variant: &Variant) -> Option<&GodotBool> {
        match variant {
            Variant::Bool(b) => Some(b),
            _ => None,
        }
    }

    open spec fn stands_for(value: Value) -> bool {
        value is Bool
    }

    fn kind(&self) -> (tag: GodotTypeIndex) {
        GodotTypeIndex::Bool
    }

    fn byte_length(&self) -> (length: usize) {
        TYPE_PADDING as usize + Self::BIT_SIZE
    }

    fn variant_eq(&self, other: &Variant) -> (equal: bool) {
        match other {
            Variant::Bool(other) => self.value == other.value,
            _ => false,
        }
    }

    fn bytes(&self) -> (bytes: Vec<u8>) {
        Encoder::encode_bool(self).unwrap()
    }

    fn to_variant(self) -> (variant: Variant) {
        Variant::Bool(self)
    }

    fn of_variant(variant: &Variant) -> (found: Option<&GodotBool>) {
        match variant {
            Variant::Bool(b) => Some(b),
            _ => None,
        }
    }
}

} // verus!
