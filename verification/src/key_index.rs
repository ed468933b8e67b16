//! The hash index of a dictionary: from the canonical bytes of a key to the
//! position of its entry. It is an `indexmap::IndexMap`.

use vstd::prelude::*;
use indexmap::IndexMap;

verus! {

/// `indexmap::IndexMap`, taken as it is: nothing inside it is looked at.
#[verifier::external_type_specification]
#[verifier::external_body]
#[verifier::reject_recursive_types(K)]
#[verifier::reject_recursive_types(V)]
#[verifier::reject_recursive_types(S)]
pub struct ExIndexMap<K, V, S>(IndexMap<K, V, S>);

/// The positions that the index holds, by key.
pub uninterp spec fn indexed(index: IndexMap<Vec<u8>, usize>) -> Map<Seq<u8>, usize>;

/// `IndexMap::new`: a map that holds nothing.
#[verifier::external_body]
pub(crate) fn index_new() -> (index: IndexMap<Vec<u8>, usize>)
    ensures
        indexed(index) =~= Map::empty(),
{
    IndexMap::new()
}

/// `IndexMap::get`: the position stored for a key equal to `key`, if the map
/// holds one. Keys are byte vectors, which are equal when their bytes are.
#[verifier::external_body]
pub(crate) fn index_get(index: &IndexMap<Vec<u8>, usize>, key: &Vec<u8>) -> (position: Option<
    usize,
>)
    ensures
        position == (if indexed(*index).contains_key(key@) {
            Some(indexed(*index)[key@])
        } else {
            None
        }),
{
    index.get(key).copied()
}

/// `IndexMap::insert`: afterwards the map holds `position` for `key` and is
/// otherwise unchanged; the position that it held for the key before, if any,
/// is returned.
#[verifier::external_body]
pub(crate) fn index_insert(
    index: &mut IndexMap<Vec<u8>, usize>,
    key: Vec<u8>,
    position: usize,
) -> (previous: Option<usize>)
    ensures
        indexed(*final(index)) == indexed(*old(index)).insert(key@, position),
        previous == (if indexed(*old(index)).contains_key(key@) {
            Some(indexed(*old(index))[key@])
        } else {
            None
        }),
{
    index.insert(key, position)
}

} // verus!
