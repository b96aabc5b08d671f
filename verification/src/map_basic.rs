//! The basic operations on object maps that scripts can call.

use vstd::prelude::*;
use crate::dynamic::{
    Dynamic, DynamicV, ObjectMap, dynamic_views, entry_views, lemma_map_insert_wf,
    lemma_map_remove_wf, map_get, map_has, map_insert, map_keys, map_remove, map_wf,
};
use crate::lookup::lemma_index_of_first;

verus! {

/// The map with all properties of `other` set, one after the other.
pub open spec fn map_insert_all(
    m: Seq<(Seq<char>, DynamicV)>,
    other: Seq<(Seq<char>, DynamicV)>,
) -> Seq<(Seq<char>, DynamicV)>
    decreases other.len(),
{
    if other.len() == 0 {
        m
    } else {
        map_insert_all(map_insert(m, other[0].0, other[0].1), other.drop_first())
    }
}

/// The map with the property set if the map did not hold it.
pub open spec fn map_fill(m: Seq<(Seq<char>, DynamicV)>, key: Seq<char>, value: DynamicV) -> Seq<
    (Seq<char>, DynamicV),
> {
    if map_has(m, key) {
        m
    } else {
        m.push((key, value))
    }
}

/// The map with those properties of `other` added that it did not hold.
pub open spec fn map_fill_all(
    m: Seq<(Seq<char>, DynamicV)>,
    other: Seq<(Seq<char>, DynamicV)>,
) -> Seq<(Seq<char>, DynamicV)>
    decreases other.len(),
{
    if other.len() == 0 {
        m
    } else {
        map_fill_all(map_fill(m, other[0].0, other[0].1), other.drop_first())
    }
}

/// The names of the properties as values, in order.
pub open spec fn key_values(m: Seq<(Seq<char>, DynamicV)>) -> Seq<DynamicV> {
    Seq::new(m.len(), |i: int| DynamicV::Str(m[i].0))
}

/// The values of the properties, in order.
pub open spec fn entry_values(m: Seq<(Seq<char>, DynamicV)>) -> Seq<DynamicV> {
    Seq::new(m.len(), |i: int| m[i].1)
}

/// Adding a property that the map does not hold keeps the properties
/// distinct.
pub proof fn lemma_map_fill_wf(m: Seq<(Seq<char>, DynamicV)>, key: Seq<char>, value: DynamicV)
    requires
        map_wf(m),
    ensures
        map_wf(map_fill(m, key, value)),
        map_fill(m, key, value) == if map_has(m, key) {
            m
        } else {
            map_insert(m, key, value)
        },
{
    lemma_index_of_first(map_keys(m), key);
    lemma_map_insert_wf(m, key, value);
}

/// Does the map hold the property?
pub fn has(map: &mut ObjectMap, prop: String) -> (r: bool)
    ensures
        r == map_has(old(map)@, prop@),
        *final(map) == *old(map),
{
    proof {
        lemma_index_of_first(map_keys(map@), prop@);
    }
    map.find(prop.as_str()).is_some()
}

/// The number of properties.
pub fn len(map: &mut ObjectMap) -> (r: i64)
    requires
        old(map)@.len() <= i64::MAX,
    ensures
        r == old(map)@.len(),
        *final(map) == *old(map),
{
    map.entries.len() as i64
}

/// Takes all properties out of the map.
pub fn clear(map: &mut ObjectMap)
    ensures
        final(map)@ == Seq::<(Seq<char>, DynamicV)>::empty(),
        final(map).wf(),
{
    map.entries.clear();
    assert(map@ =~= Seq::<(Seq<char>, DynamicV)>::empty());
}

/// Takes a property out of the map and returns its value, or the unit
/// value if the map did not hold it.
pub fn remove(x: &mut ObjectMap, name: String) -> (r: Dynamic)
    ensures
        final(x)@ == map_remove(old(x)@, name@),
        r@ == match map_get(old(x)@, name@) {
            Some(v) => v,
            None => DynamicV::Unit,
        },
        old(x).wf() ==> final(x).wf() && !map_has(final(x)@, name@),
{
    proof {
        if x.wf() {
            lemma_map_remove_wf(x@, name@);
        }
    }
    match x.remove(name.as_str()) {
        Some(v) => v,
        None => Dynamic::Unit,
    }
}

/// Sets all properties of `map2` in `map1`. A property that `map1` held
/// keeps its place and takes the new value.
pub fn mixin(map1: &mut ObjectMap, map2: ObjectMap)
    ensures
        final(map1)@ == map_insert_all(old(map1)@, map2@),
        old(map1).wf() ==> final(map1).wf(),
{
    let mut rest = map2.entries;
    while rest.len() > 0
        invariant
            map_insert_all(map1@, entry_views(rest@)) == map_insert_all(old(map1)@, map2@),
            old(map1).wf() ==> map1.wf(),
        decreases rest@.len(),
    {
        let ghost before = entry_views(rest@);
        let (key, value) = rest.remove(0);
        proof {
            assert(entry_views(rest@) =~= before.drop_first());
            assert(before[0] == (key@, value@));
            if map1.wf() {
                lemma_map_insert_wf(map1@, key@, value@);
            }
        }
        map1.insert(key, value);
    }
}

/// A map with the properties of `map1` and then those of `map2` set.
pub fn merge(map1: ObjectMap, map2: ObjectMap) -> (r: ObjectMap)
    ensures
        r@ == map_insert_all(map1@, map2@),
        map1.wf() ==> r.wf(),
{
    let mut map1 = map1;
    mixin(&mut map1, map2);
    map1
}

/// Adds those properties of `map2` to `map1` that `map1` does not hold.
pub fn fill_with(map1: &mut ObjectMap, map2: ObjectMap)
    ensures
        final(map1)@ == map_fill_all(old(map1)@, map2@),
        old(map1).wf() ==> final(map1).wf(),
{
    let mut rest = map2.entries;
    while rest.len() > 0
        invariant
            map_fill_all(map1@, entry_views(rest@)) == map_fill_all(old(map1)@, map2@),
            old(map1).wf() ==> map1.wf(),
        decreases rest@.len(),
    {
        let ghost before = entry_views(rest@);
        let (key, value) = rest.remove(0);
        proof {
            assert(entry_views(rest@) =~= before.drop_first());
            assert(before[0] == (key@, value@));
            lemma_index_of_first(map_keys(map1@), key@);
            if map1.wf() {
                lemma_map_fill_wf(map1@, key@, value@);
            }
        }
        if map1.find(key.as_str()).is_none() {
            let ghost m = map1@;
            map1.entries.push((key, value));
            assert(map1@ =~= m.push((key@, value@)));
        }
    }
}

/// The names of the properties, in order.
pub fn keys(map: &mut ObjectMap) -> (r: Vec<Dynamic>)
    ensures
        dynamic_views(r@) == key_values(old(map)@),
        *final(map) == *old(map),
{
    let mut names: Vec<Dynamic> = Vec::new();
    let mut i: usize = 0;
    while i < map.entries.len()
        invariant
            i <= map.entries@.len(),
            *map == *old(map),
            names@.len() == i,
            forall|j: int| 0 <= j < i ==> names@[j]@ == DynamicV::Str(map.entries@[j].0@),
        decreases map.entries@.len() - i,
    {
        names.push(Dynamic::Str(map.entries[i].0.clone()));
        i = i + 1;
    }
    assert(dynamic_views(names@) =~= key_values(map@));
    names
}

/// The values of the properties, in order.
pub fn values(map: &mut ObjectMap) -> (r: Vec<Dynamic>)
    ensures
        dynamic_views(r@) == entry_values(old(map)@),
        *final(map) == *old(map),
{
    let mut items: Vec<Dynamic> = Vec::new();
    let mut i: usize = 0;
    while i < map.entries.len()
        invariant
            i <= map.entries@.len(),
            *map == *old(map),
            items@.len() == i,
            forall|j: int| 0 <= j < i ==> items@[j]@ == map.entries@[j].1@,
        decreases map.entries@.len() - i,
    {
        items.push(map.entries[i].1.clone_value());
        i = i + 1;
    }
    assert(dynamic_views(items@) =~= entry_values(map@));
    items
}

} // verus!
