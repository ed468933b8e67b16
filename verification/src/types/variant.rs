//! The tagged union of all variants, and what every variant offers.

use vstd::prelude::*;
use vstd::std_specs::cmp::PartialEqSpecImpl;
use crate::encoder::Encoder;
use crate::layout::{wire, Value};
use crate::types::primitive::{GodotBool, GodotFloat, GodotInteger, GodotNull, GodotString};
use crate::types::structures::{GodotDictionary, GodotVector2, GodotVector3};
use crate::types::GodotTypeIndex;

verus! {

/// A value of any of the kinds that the codec implements.
#[derive(Debug)]
pub enum Variant {
    Null(GodotNull),
    Bool(GodotBool),
    Integer(GodotInteger),
    Float(GodotFloat),
    String(GodotString),
    Vector2(GodotVector2),
    Vector3(GodotVector3),
    Dictionary(GodotDictionary),
}

/// What every variant offers: its recorded length, its canonical bytes,
/// equality by value, and the way into and out of `Variant`.
pub trait GodotVariant: Sized + Send + Sync {
    /// What the variant stands for.
    spec fn value(&self) -> Value;

    /// The length that `byte_length` returns.
    spec fn spec_byte_length(&self) -> nat;

    /// The variant of this type that `variant` holds, if it holds one.
    spec fn spec_of_variant(variant: &Variant) -> Option<&Self>;

    /// Whether a variant of this type can stand for the value.
    spec fn stands_for(value: Value) -> bool;

    /// The tag of the variant's kind.
    fn kind(&self) -> (tag: GodotTypeIndex)
        ensures
            tag == self.value().kind(),
    ;

    /// The number of bytes that the variant occupied in the buffer it was
    /// decoded from, or that it was built to occupy.
    fn byte_length(&self) -> (length: usize)
        ensures
            length == self.spec_byte_length(),
    ;

    /// Whether the two stand for the same value.
    fn variant_eq(&self, other: &Variant) -> (equal: bool)
        ensures
            equal == (self.value() == other@),
    ;

    /// The canonical bytes of the variant: its encoding.
    fn bytes(&self) -> (bytes: Vec<u8>)
        ensures
            bytes@ == wire(self.value()),
    ;

    /// The variant as a member of the tagged union.
    fn to_variant(self) -> (variant: Variant)
        ensures
            Self::spec_of_variant(&variant) == Some(&self),
            Self::stands_for(self.value()),
            variant@ == self.value(),
            variant.spec_length() == self.spec_byte_length(),
    ;

    /// The variant of this type that `variant` holds, if it holds one.
    fn of_variant(variant: &Variant) -> (found: Option<&Self>)
        ensures
            found == Self::spec_of_variant(variant),
            found is Some <==> Self::stands_for(variant@),
            found matches Some(held) ==> held.value() == variant@ && held.spec_byte_length()
                == variant.spec_length(),
    ;
}

/// Access to a variant by its concrete type.
pub trait AsVariant {
    /// The variant that is looked into.
    spec fn as_variant(&self) -> &Variant;

    /// The variant as a `T`, if it is one.
    fn as_var<T: GodotVariant>(&self) -> (found: Option<&T>)
        ensures
            found == T::spec_of_variant(self.as_variant()),
            found is Some <==> T::stands_for(self.as_variant()@),
            found matches Some(held) ==> held.value() == self.as_variant()@
                && held.spec_byte_length() == self.as_variant().spec_length(),
    ;
}

impl Variant {
    /// What the variant stands for.
    pub open spec fn view(&self) -> Value
        decreases self,
    {
        match self {
            Variant::Null(_) => Value::Null,
            Variant::Bool(b) => Value::Bool(b.value),
            Variant::Integer(i) => Value::Integer(i.value),
            Variant::Float(f) => if f.spec_is_wide() {
                Value::Float64(f.bits)
            } else {
                Value::Float32(f.spec_narrow_bits())
            },
            Variant::String(s) => Value::Text(s.value@),
            Variant::Vector2(v) => Value::Vector2 { x: v.x, y: v.y },
            Variant::Vector3(v) => Value::Vector3 { x: v.x, y: v.y, z: v.z },
            Variant::Dictionary(d) => Value::Dictionary(d@),
        }
    }

    /// The number of bytes that the variant occupied in the buffer it was
    /// decoded from, or that it was built to occupy.
    pub open spec fn spec_length(&self) -> nat {
        match self {
            Variant::Null(_) => 4,
            Variant::Bool(_) => 8,
            Variant::Integer(i) => i.byte_size as nat,
            Variant::Float(f) => f.byte_size as nat,
            Variant::String(s) => s.byte_size as nat,
            Variant::Vector2(_) => 12,
            Variant::Vector3(_) => 16,
            Variant::Dictionary(d) => d.spec_byte_size(),
        }
    }

    /// Whether the variant is null.
    pub fn is_null(&self) -> (null: bool)
        ensures
            null == (self@ is Null),
    {
        match self {
            Variant::Null(_) => true,
            _ => false,
        }
    }
}

impl Variant {
    /// Whether the two stand for the same value: the same kind and, within
    /// it, equal numbers, equal text, equal components or equal entries.
    pub fn same_as(&self, other: &Variant) -> (equal: bool)
        ensures
            equal == (self@ == other@),
        decreases self,
    {
        match self {
            Variant::Null(v) => v.variant_eq(other),
            Variant::Bool(v) => v.variant_eq(other),
            Variant::Integer(v) => v.variant_eq(other),
            Variant::Float(v) => v.variant_eq(other),
            Variant::String(v) => v.variant_eq(other),
            Variant::Vector2(v) => v.variant_eq(other),
            Variant::Vector3(v) => v.variant_eq(other),
            Variant::Dictionary(v) => match other {
                Variant::Dictionary(other) => v.same_entries(other),
                _ => false,
            },
        }
    }
}

impl PartialEq for Variant {
    /// Whether the two stand for the same value.
    fn eq(&self, other: &Variant) -> (equal: bool)
        ensures
            equal == (self@ == other@),
    {
        self.same_as(other)
    }
}

impl Eq for Variant {

}

impl core::hash::Hash for Variant {
    /// Feeds the canonical bytes of the variant to the hasher, so that
    /// variants that are equal hash alike.
    fn hash<H: core::hash::Hasher>(&self, state: &mut H) {
        let bytes = self.bytes();
        let mut i: usize = 0;
        while i < bytes.len()
            invariant
                i <= bytes.len(),
            decreases bytes.len() - i,
        {
            bytes[i].hash(state);
            i += 1;
        }
    }
}

impl PartialEqSpecImpl for Variant {
    open spec fn obeys_eq_spec() -> bool {
        true
    }

    open spec fn eq_spec(&self, other: &Variant) -> bool {
        self@ == other@
    }
}

impl GodotVariant for Variant {
    open spec fn value(&self) -> Value {
        self@
    }

    open spec fn spec_byte_length(&self) -> nat {
        self.spec_length()
    }

    open spec fn spec_of_variant(variant: &Variant) -> Option<&Variant> {
        Some(variant)
    }

    open spec fn stands_for(value: Value) -> bool {
        true
    }

    fn kind(&self) -> (tag: GodotTypeIndex) {
        match self {
            Variant::Null(_) => GodotTypeIndex::Nil,
            Variant::Bool(_) => GodotTypeIndex::Bool,
            Variant::Integer(_) => GodotTypeIndex::Integer,
            Variant::Float(_) => GodotTypeIndex::Float,
            Variant::String(_) => GodotTypeIndex::String,
            Variant::Vector2(_) => GodotTypeIndex::Vector2,
            Variant::Vector3(_) => GodotTypeIndex::Vector3,
            Variant::Dictionary(_) => GodotTypeIndex::Dictionary,
        }
    }

    fn byte_length(&self) -> (length: usize) {
        match self {
            Variant::Null(v) => v.byte_length(),
            Variant::Bool(v) => v.byte_length(),
            Variant::Integer(v) => v.byte_length(),
            Variant::Float(v) => v.byte_length(),
            Variant::String(v) => v.byte_length(),
            Variant::Vector2(v) => v.byte_length(),
            Variant::Vector3(v) => v.byte_length(),
            Variant::Dictionary(v) => v.byte_length(),
        }
    }

    fn variant_eq(&self, other: &Variant) -> (equal: bool) {
        self.same_as(other)
    }

    fn bytes(&self) -> (bytes: Vec<u8>) {
        Encoder::encode_variant(self).unwrap()
    }

    fn to_variant(self) -> (variant: Variant) {
        self
    }

    fn of_variant(variant: &Variant) -> (found: Option<&Variant>) {
        Some(variant)
    }
}

impl AsVariant for Variant {
    open spec fn as_variant(&self) -> &Variant {
        self
    }

    fn as_var<T: GodotVariant>(&self) -> (found: Option<&T>) {
        T::of_variant(self)
    }
}

} // verus!
