//! The maps and sets of the crate `starlark_map`, as far as they are used here.
//!
//! A map is described by two things. Its contents are what looking a key up finds. Its entries are
//! its pairs in the order in which they are walked. A set is described likewise. The two go
//! together for a map or a set that was filled by inserting. What is said here takes for granted
//! that the functions of the crate whose names end in `_unchecked` were used as they ask for: no key
//! is in a map twice.
use crate::types::{Quantified, Type};
use starlark_map::small_map::SmallMap;
use starlark_map::small_set::SmallSet;
use vstd::prelude::*;

verus! {

/// `starlark_map::small_map::SmallMap`, a hash map that remembers the order of insertion.
#[verifier::external_type_specification]
#[verifier::external_body]
#[verifier::reject_recursive_types(K)]
#[verifier::reject_recursive_types(V)]
pub struct ExSmallMap<K, V>(SmallMap<K, V>);

/// `starlark_map::small_set::SmallSet`, a hash set that remembers the order of insertion.
#[verifier::external_type_specification]
#[verifier::external_body]
#[verifier::reject_recursive_types(T)]
pub struct ExSmallSet<T>(SmallSet<T>);

/// What `get` finds in a map, for each key.
pub uninterp spec fn map_contents(map: SmallMap<Quantified, Type>) -> Map<Quantified, Type>;

/// The pairs of a map, in the order in which they are walked.
pub uninterp spec fn map_entries(map: SmallMap<Quantified, Type>) -> Seq<(Quantified, Type)>;

/// What is found in a set.
pub uninterp spec fn set_contents(set: SmallSet<Quantified>) -> Set<Quantified>;

/// The elements of a set, in the order in which they are walked.
pub uninterp spec fn set_elements(set: SmallSet<Quantified>) -> Seq<Quantified>;

/// `SmallMap::new`: a map that holds nothing.
#[verifier::external_body]
pub(crate) fn new_map() -> (created: SmallMap<Quantified, Type>)
    ensures
        map_contents(created).is_empty(),
        map_entries(created).len() == 0,
{
    SmallMap::new()
}

/// `SmallMap::insert`: the key is found with the new value from now on. A key that was not found
/// before goes to the end; for one that was found, the value changes where it is.
#[verifier::external_body]
pub(crate) fn map_insert(map: &mut SmallMap<Quantified, Type>, key: Quantified, value: Type) -> (replaced:
    Option<Type>)
    ensures
        map_contents(*final(map)) == map_contents(*old(map)).insert(key, value),
        !map_contents(*old(map)).contains_key(key) ==> replaced is None && map_entries(*final(map))
            == map_entries(*old(map)).push((key, value)),
        map_contents(*old(map)).contains_key(key) ==> replaced == Some(
            map_contents(*old(map))[key],
        ) && exists|i: int|
            0 <= i < map_entries(*old(map)).len() && #[trigger] map_entries(*old(map))[i] == (
                key,
                map_contents(*old(map))[key],
            ) && map_entries(*final(map)) == map_entries(*old(map)).update(i, (key, value)),
{
    map.insert(key, value)
}

/// `SmallMap::get`: the value that is found for the key, if one is.
#[verifier::external_body]
pub(crate) fn map_get<'a>(map: &'a SmallMap<Quantified, Type>, key: &Quantified) -> (value: Option<
    &'a Type,
>)
    ensures
        map_contents(*map).contains_key(*key) ==> value == Some(&map_contents(*map)[*key]),
        !map_contents(*map).contains_key(*key) ==> value is None,
{
    map.get(key)
}

/// `SmallMap::into_values`: the values of the pairs, in the order of the pairs.
#[verifier::external_body]
pub(crate) fn map_into_values(map: SmallMap<Quantified, Type>) -> (values: Vec<Type>)
    ensures
        values@ == map_entries(map).map_values(|entry: (Quantified, Type)| entry.1),
{
    map.into_values().collect()
}

/// `SmallSet::insert`: the element is found from now on. One that was not found before goes to the
/// end, and the call says that it did; for one that was found, nothing changes.
#[verifier::external_body]
pub(crate) fn set_insert(set: &mut SmallSet<Quantified>, element: Quantified) -> (inserted: bool)
    ensures
        inserted == !set_contents(*old(set)).contains(element),
        set_contents(*final(set)) == set_contents(*old(set)).insert(element),
        set_elements(*final(set)) == if inserted {
            set_elements(*old(set)).push(element)
        } else {
            set_elements(*old(set))
        },
{
    set.insert(element)
}

} // verus!
