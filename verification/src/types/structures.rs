//! The composite variants: 2D and 3D vectors and the dictionary.

use vstd::prelude::*;
use indexmap::IndexMap;
use crate::encoder::Encoder;
use crate::key_index::{index_get, index_insert, index_new, indexed};
use crate::laws::entries::law_found_after_insertion;
use crate::layout::{
    distinct_keys, has_key, holds_key, key_position, lookup, upsert, wire, wire_dictionary,
    Value,
};
use crate::types::variant::{GodotVariant, Variant};
use crate::types::{GodotTypeIndex, TYPE_PADDING};

verus! {

/// A 2D vector. Each component is the bit pattern of a single-precision
/// float.
#[derive(PartialEq, Eq, Debug, Clone, Copy)]
pub struct GodotVector2 {
    pub x: u32,
    pub y: u32,
}

/// A 3D vector. Each component is the bit pattern of a single-precision
/// float.
#[derive(PartialEq, Eq, Debug, Clone, Copy)]
pub struct GodotVector3 {
    pub x: u32,
    pub y: u32,
    pub z: u32,
}

/// A dictionary: pairs of a key and a value, both variants, in the order in
/// which their keys were first inserted. No two entries have keys with the
/// same canonical bytes. A dictionary that was decoded records the number of
/// bytes it occupied, until a pair is inserted into it.
#[derive(Debug)]
pub struct GodotDictionary {
    entries: Vec<(Variant, Variant)>,
    index: IndexMap<Vec<u8>, usize>,
    byte_size: Option<usize>,
}

impl GodotVector2 {
    /// Payload bytes of a 2D vector.
    pub const BIT_SIZE: usize = 8;

    /// A 2D vector, from the bit patterns of its components.
    pub fn new(x: u32, y: u32) -> (vector: Self)
        ensures
            vector.x == x,
            vector.y == y,
    {
        Self { x, y }
    }
}

impl GodotVector3 {
    /// Payload bytes of a 3D vector.
    pub const BIT_SIZE: usize = 12;

    /// A 3D vector, from the bit patterns of its components.
    pub fn new(x: u32, y: u32, z: u32) -> (vector: Self)
        ensures
            vector.x == x,
            vector.y == y,
            vector.z == z,
    {
        Self { x, y, z }
    }
}

/// What each pair of variants stands for.
pub open spec fn pairs_view(pairs: Seq<(Variant, Variant)>) -> Seq<(Value, Value)>
    decreases pairs,
{
    if pairs.len() == 0 {
        Seq::empty()
    } else {
        pairs_view(pairs.drop_last()).push((pairs.last().0@, pairs.last().1@))
    }
}

/// `pairs_view` goes pair by pair.
pub proof fn lemma_pairs_view(pairs: Seq<(Variant, Variant)>)
    ensures
        pairs_view(pairs).len() == pairs.len(),
        forall|i: int|
            0 <= i < pairs.len() ==> #[trigger] pairs_view(pairs)[i] == (pairs[i].0@, pairs[i].1@),
    decreases pairs.len(),
{
    if pairs.len() > 0 {
        lemma_pairs_view(pairs.drop_last());
    }
}

/// The entries after `pairs` were inserted into `entries`, one after the
/// other.
pub open spec fn upsert_all(entries: Seq<(Value, Value)>, pairs: Seq<(Value, Value)>) -> Seq<
    (Value, Value),
>
    decreases pairs.len(),
{
    if pairs.len() == 0 {
        entries
    } else {
        upsert(upsert_all(entries, pairs.drop_last()), pairs.last().0, pairs.last().1)
    }
}

impl GodotDictionary {
    /// The entries of the dictionary, in order.
    pub closed spec fn view(&self) -> Seq<(Value, Value)>
        decreases self,
    {
        pairs_view(self.entries@)
    }

    /// The key of entry `i`, as it is held.
    pub closed spec fn spec_key_at(&self, i: int) -> Variant {
        self.entries@[i].0
    }

    /// The value of entry `i`, as it is held.
    pub closed spec fn spec_value_at(&self, i: int) -> Variant {
        self.entries@[i].1
    }

    /// The number of bytes that the dictionary occupied in the buffer it was
    /// decoded from, if it was decoded and has not been inserted into since.
    pub closed spec fn spec_recorded(&self) -> Option<usize> {
        self.byte_size
    }

    /// The length that `byte_length` returns: the recorded length where there
    /// is one, and the length of the encoding otherwise.
    pub open spec fn spec_byte_size(&self) -> nat {
        match self.spec_recorded() {
            Some(size) => size as nat,
            None => wire_dictionary(self@).len(),
        }
    }

    /// The index holds the canonical bytes of every key with the position of
    /// its entry, and nothing else.
    #[verifier::type_invariant]
    spec fn well_formed(&self) -> bool {
        Self::indexes(indexed(self.index), self.entries@)
    }

    /// Whether `index` holds the canonical bytes of the key of every entry
    /// with the position of that entry, and nothing else.
    spec fn indexes(index: Map<Seq<u8>, usize>, entries: Seq<(Variant, Variant)>) -> bool {
        &&& forall|i: int|
            0 <= i < entries.len() ==> index.contains_key(wire((#[trigger] entries[i]).0@))
                && index[wire(entries[i].0@)] == i
        &&& forall|k: Seq<u8>| #[trigger]
            index.contains_key(k) ==> index[k] < entries.len() && wire(
                entries[index[k] as int].0@,
            ) == k
    }

    /// The entries that are held stand for the entries of the view.
    pub proof fn lemma_entries(&self)
        ensures
            forall|i: int|
                0 <= i < self@.len() ==> (#[trigger] self@[i]) == (
                    self.spec_key_at(i)@,
                    self.spec_value_at(i)@,
                ),
    {
        lemma_pairs_view(self.entries@);
    }

    /// Entries that are indexed have distinct keys.
    proof fn lemma_indexed_keys_are_distinct(
        index: Map<Seq<u8>, usize>,
        entries: Seq<(Variant, Variant)>,
    )
        requires
            Self::indexes(index, entries),
        ensures
            distinct_keys(pairs_view(entries)),
    {
        lemma_pairs_view(entries);
        let view = pairs_view(entries);
        assert forall|i: int, j: int|
            0 <= i < view.len() && 0 <= j < view.len() && wire(#[trigger] view[i].0) == wire(
                #[trigger] view[j].0,
            ) implies i == j by {
            assert(index[wire(entries[i].0@)] == i);
            assert(index[wire(entries[j].0@)] == j);
        }
    }

    /// Relates the index to the view: a key is indexed exactly when an entry
    /// has it, and then at the position of that entry.
    proof fn lemma_indexed(index: Map<Seq<u8>, usize>, entries: Seq<(Variant, Variant)>, key: Value)
        requires
            Self::indexes(index, entries),
        ensures
            index.contains_key(wire(key)) <==> has_key(pairs_view(entries), key),
            index.contains_key(wire(key)) ==> key_position(pairs_view(entries), key) == index[wire(
                key,
            )],
    {
        lemma_pairs_view(entries);
        let view = pairs_view(entries);
        if index.contains_key(wire(key)) {
            let at = index[wire(key)] as int;
            assert(holds_key(view, key, at));
            let chosen = key_position(view, key);
            assert(holds_key(view, key, chosen));
            assert(wire(entries[chosen].0@) == wire(key));
        }
        if has_key(view, key) {
            let chosen = key_position(view, key);
            assert(holds_key(view, key, chosen));
            assert(index.contains_key(wire(entries[chosen].0@)));
        }
    }

    /// A dictionary without entries.
    pub fn new() -> (dictionary: Self)
        ensures
            dictionary@ == Seq::<(Value, Value)>::empty(),
            dictionary.spec_recorded() is None,
    {
        Self { entries: Vec::new(), index: index_new(), byte_size: None }
    }

    /// The number of entries.
    pub fn len(&self) -> (count: usize)
        ensures
            count == self@.len(),
            distinct_keys(self@),
    {
        proof {
            use_type_invariant(self);
            Self::lemma_indexed_keys_are_distinct(indexed(self.index), self.entries@);
            lemma_pairs_view(self.entries@);
        }
        self.entries.len()
    }

    /// The key of entry `i`.
    pub fn key_at(&self, i: usize) -> (key: &Variant)
        requires
            i < self@.len(),
        ensures
            key@ == self@[i as int].0,
            *key == self.spec_key_at(i as int),
            decreases_to!(self => key),
    {
        proof {
            lemma_pairs_view(self.entries@);
        }
        &self.entries[i].0
    }

    /// The value of entry `i`.
    pub fn value_at(&self, i: usize) -> (value: &Variant)
        requires
            i < self@.len(),
        ensures
            value@ == self@[i as int].1,
            *value == self.spec_value_at(i as int),
            decreases_to!(self => value),
    {
        proof {
            lemma_pairs_view(self.entries@);
        }
        &self.entries[i].1
    }

    /// The value stored under `key`, if the dictionary has the key and the
    /// value is a `V`.
    pub fn get<V: GodotVariant>(&self, key: impl GodotVariant) -> (found: Option<&V>)
        ensures
            found == (if has_key(self@, key.value()) {
                V::spec_of_variant(&self.spec_value_at(key_position(self@, key.value())))
            } else {
                None
            }),
            found is Some <==> (lookup(self@, key.value()) matches Some(value) && V::stands_for(
                value,
            )),
            found matches Some(held) ==> lookup(self@, key.value()) == Some(held.value()),
    {
        let key_bytes = key.bytes();
        proof {
            use_type_invariant(self);
            Self::lemma_indexed(indexed(self.index), self.entries@, key.value());
            lemma_pairs_view(self.entries@);
        }
        match index_get(&self.index, &key_bytes) {
            Some(at) => {
                assert(self@[at as int].1 == self.entries@[at as int].1@);
                V::of_variant(&self.entries[at].1)
            },
            None => None,
        }
    }

    /// Inserts a pair. Where the dictionary has the key already, the value
    /// replaces the one stored under it and the entry keeps its key and its
    /// place; otherwise the pair becomes the last entry.
    pub fn insert<K: GodotVariant, V: GodotVariant>(&mut self, key: K, value: V)
        ensures
            final(self)@ == upsert(old(self)@, key.value(), value.value()),
            distinct_keys(final(self)@),
            lookup(final(self)@, key.value()) == Some(value.value()),
            forall|other: Value|
                wire(other) != wire(key.value()) ==> #[trigger] lookup(final(self)@, other)
                    == lookup(old(self)@, other),
            final(self).spec_recorded() is None,
    {
        let mut taken = Self::new();
        core::mem::swap(self, &mut taken);
        *self = taken.with(key.to_variant(), value.to_variant());
    }

    /// The dictionary after the insertion of a pair.
    fn with(self, key: Variant, value: Variant) -> (updated: Self)
        ensures
            updated@ == upsert(self@, key@, value@),
            distinct_keys(updated@),
            lookup(updated@, key@) == Some(value@),
            forall|other: Value|
                wire(other) != wire(key@) ==> #[trigger] lookup(updated@, other) == lookup(
                    self@,
                    other,
                ),
            updated.spec_recorded() is None,
    {
        let key_bytes = key.bytes();
        proof {
            use_type_invariant(&self);
            Self::lemma_indexed(indexed(self.index), self.entries@, key@);
            Self::lemma_indexed_keys_are_distinct(indexed(self.index), self.entries@);
            lemma_pairs_view(self.entries@);
            assert forall|other: Value| wire(other) != wire(key@) implies #[trigger] lookup(
                upsert(self@, key@, value@),
                other,
            ) == lookup(self@, other) by {
                law_found_after_insertion(self@, key@, value@, other);
            }
            law_found_after_insertion(self@, key@, value@, key@);
        }
        let ghost before = self.entries@;
        let Self { mut entries, mut index, byte_size: _ } = self;
        match index_get(&index, &key_bytes) {
            Some(at) => {
                entries[at].1 = value;
            },
            None => {
                let at: usize = entries.len();
                index_insert(&mut index, key_bytes, at);
                entries.push((key, value));
            },
        }
        proof {
            lemma_pairs_view(entries@);
            assert(pairs_view(entries@) =~= upsert(pairs_view(before), key@, value@));
            Self::lemma_indexed_keys_are_distinct(indexed(index), entries@);
        }
        Self { entries, index, byte_size: None }
    }

    /// A dictionary that holds the pairs, inserted one after the other.
    pub fn new_from_map(pairs: Vec<(Variant, Variant)>) -> (dictionary: Self)
        ensures
            dictionary@ == upsert_all(Seq::empty(), pairs_view(pairs@)),
            distinct_keys(dictionary@),
            dictionary.spec_recorded() is None,
    {
        let mut pairs = pairs;
        let ghost all = pairs@;
        let mut stack: Vec<(Variant, Variant)> = Vec::new();
        while pairs.len() > 0
            invariant
                pairs@.len() + stack@.len() == all.len(),
                forall|i: int| 0 <= i < pairs@.len() ==> pairs@[i] == all[i],
                forall|i: int| 0 <= i < stack@.len() ==> stack@[i] == all[all.len() - 1 - i],
            decreases pairs@.len(),
        {
            let pair = pairs.pop().unwrap();
            stack.push(pair);
        }
        let mut dictionary = Self::new();
        while stack.len() > 0
            invariant
                stack@.len() <= all.len(),
                forall|i: int| 0 <= i < stack@.len() ==> stack@[i] == all[all.len() - 1 - i],
                dictionary@ == upsert_all(
                    Seq::empty(),
                    pairs_view(all.take(all.len() - stack@.len())),
                ),
                distinct_keys(dictionary@),
                dictionary.spec_recorded() is None,
            decreases stack@.len(),
        {
            let ghost done = all.take(all.len() - stack@.len());
            let (key, value) = stack.pop().unwrap();
            let ghost next = all.take(all.len() - stack@.len());
            proof {
                assert(next.drop_last() == done);
                assert(next.last() == (key, value));
                assert(pairs_view(next) == pairs_view(done).push((key@, value@)));
                assert(pairs_view(next).drop_last() == pairs_view(done));
            }
            dictionary.insert(key, value);
        }
        assert(all.take(all.len() as int) == all);
        dictionary
    }

    /// Whether the two dictionaries hold equal entries in the same order:
    /// entry by entry, equal keys and equal values.
    pub fn same_entries(&self, other: &GodotDictionary) -> (equal: bool)
        ensures
            equal == (self@ == other@),
        decreases self,
    {
        proof {
            lemma_pairs_view(self.entries@);
            lemma_pairs_view(other.entries@);
        }
        if self.entries.len() != other.entries.len() {
            return false;
        }
        let mut i: usize = 0;
        while i < self.entries.len()
            invariant
                i <= self.entries@.len(),
                self.entries@.len() == other.entries@.len(),
                self@ == pairs_view(self.entries@),
                other@ == pairs_view(other.entries@),
                forall|j: int| 0 <= j < i ==> self@[j] == other@[j],
            decreases self.entries@.len() - i,
        {
            proof {
                lemma_pairs_view(self.entries@);
                lemma_pairs_view(other.entries@);
            }
            if !self.entries[i].0.same_as(&other.entries[i].0) {
                assert(self@[i as int] != other@[i as int]);
                return false;
            }
            if !self.entries[i].1.same_as(&other.entries[i].1) {
                assert(self@[i as int] != other@[i as int]);
                return false;
            }
            i += 1;
        }
        proof {
            lemma_pairs_view(self.entries@);
            lemma_pairs_view(other.entries@);
        }
        assert(self@ =~= other@);
        true
    }

    /// The number of bytes that the dictionary occupied in the buffer it was
    /// decoded from; for one that was built in memory or inserted into, the
    /// length of its encoding, which is found by encoding it.
    pub fn byte_size(&self) -> (size: usize)
        ensures
            size == self.spec_byte_size(),
    {
        match self.byte_size {
            Some(size) => size,
            None => Encoder::encode_dictionary(self).unwrap().len(),
        }
    }

    /// Records the number of bytes that the dictionary occupied in a buffer.
    pub(crate) fn set_byte_size(&mut self, size: usize)
        ensures
            final(self)@ == old(self)@,
            final(self).spec_recorded() == Some(size),
    {
        proof {
            use_type_invariant(&*self);
        }
        self.byte_size = Some(size);
    }
}

impl Default for GodotDictionary {
    fn default() -> (dictionary: Self)
        ensures
            dictionary@ == Seq::<(Value, Value)>::empty(),
            dictionary.spec_recorded() is None,
    {
        Self::new()
    }
}

impl GodotVariant for GodotVector2 {
    open spec fn value(&self) -> Value {
        Value::Vector2 { x: self.x, y: self.y }
    }

    open spec fn spec_byte_length(&self) -> nat {
        12
    }

    open spec fn spec_of_variant(variant: &Variant) -> Option<&GodotVector2> {
        match variant {
            Variant::Vector2(vector) => Some(vector),
            _ => None,
        }
    }

    open spec fn stands_for(value: Value) -> bool {
        value is Vector2
    }

    fn kind(&self) -> (tag: GodotTypeIndex) {
        GodotTypeIndex::Vector2
    }

    fn byte_length(&self) -> (length: usize) {
        TYPE_PADDING as usize + Self::BIT_SIZE
    }

    fn variant_eq(&self, other: &Variant) -> (equal: bool) {
        match other {
            Variant::Vector2(other) => self.x == other.x && self.y == other.y,
            _ => false,
        }
    }

    fn bytes(&self) -> (bytes: Vec<u8>) {
        Encoder::encode_vector2(self).unwrap()
    }

    fn to_variant(self) -> (variant: Variant) {
        Variant::Vector2(self)
    }

    fn of_variant(variant: &Variant) -> (found: Option<&GodotVector2>) {
        match variant {
            Variant::Vector2(vector) => Some(vector),
            _ => None,
        }
    }
}

impl GodotVariant for GodotVector3 {
    open spec fn value(&self) -> Value {
        Value::Vector3 { x: self.x, y: self.y, z: self.z }
    }

    open spec fn spec_byte_length(&self) -> nat {
        16
    }

    open spec fn spec_of_variant(variant: &Variant) -> Option<&GodotVector3> {
        match variant {
            Variant::Vector3(vector) => Some(vector),
            _ => None,
        }
    }

    open spec fn stands_for(value: Value) -> bool {
        value is Vector3
    }

    fn kind(&self) -> (tag: GodotTypeIndex) {
        GodotTypeIndex::Vector3
    }

    fn byte_length(&self) -> (length: usize) {
        TYPE_PADDING as usize + Self::BIT_SIZE
    }

    fn variant_eq(&self, other: &Variant) -> (equal: bool) {
        match other {
            Variant::Vector3(other) => self.x == other.x && self.y == other.y && self.z
                == other.z,
            _ => false,
        }
    }

    fn bytes(&self) -> (bytes: Vec<u8>) {
        Encoder::encode_vector3(self).unwrap()
    }

    fn to_variant(self) -> (variant: Variant) {
        Variant::Vector3(self)
    }

    fn of_variant(variant: &Variant) -> (found: Option<&GodotVector3>) {
        match variant {
            Variant::Vector3(vector) => Some(vector),
            _ => None,
        }
    }
}

impl GodotVariant for GodotDictionary {
    open spec fn value(&self) -> Value {
        Value::Dictionary(self@)
    }

    open spec fn spec_byte_length(&self) -> nat {
        self.spec_byte_size()
    }

    open spec fn spec_of_variant(variant: &Variant) -> Option<&GodotDictionary> {
        match variant {
            Variant::Dictionary(dictionary) => Some(dictionary),
            _ => None,
        }
    }

    open spec fn stands_for(value: Value) -> bool {
        value is Dictionary
    }

    fn kind(&self) -> (tag: GodotTypeIndex) {
        GodotTypeIndex::Dictionary
    }

    fn byte_length(&self) -> (length: usize) {
        self.byte_size()
    }

    fn variant_eq(&self, other: &Variant) -> (equal: bool) {
        match other {
            Variant::Dictionary(other) => self.same_entries(other),
            _ => false,
        }
    }

    fn bytes(&self) -> (bytes: Vec<u8>) {
        Encoder::encode_dictionary(self).unwrap()
    }

    fn to_variant(self) -> (variant: Variant) {
        Variant::Dictionary(self)
    }

    fn of_variant(variant: &Variant) -> (found: Option<&GodotDictionary>) {
        match variant {
            Variant::Dictionary(dictionary) => Some(dictionary),
            _ => None,
        }
    }
}

} // verus!
