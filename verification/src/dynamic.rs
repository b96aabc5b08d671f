//! The values of the language, as far as the front end has to know them.

use vstd::prelude::*;
use crate::lookup::{lemma_first_index, lemma_index_of_first, lemma_no_index};
use crate::strings::str_eq;

verus! {

/// Whether a variable may be assigned to.
#[derive(Clone, Copy, Debug, PartialEq, Eq, Hash, Structural)]
pub enum AccessMode {
    /// The variable may be read and written.
    ReadWrite,
    /// The variable is a constant.
    ReadOnly,
}

/// A value of the language.
#[derive(Debug, PartialEq, Eq)]
pub enum Dynamic {
    /// `()`
    Unit,
    /// A boolean.
    Bool(bool),
    /// An integer.
    Int(i64),
    /// A floating-point number, held as its IEEE-754 bits.
    Float(u64),
    /// A character.
    Char(char),
    /// A string.
    Str(String),
    /// An array of values.
    Array(Vec<Dynamic>),
    /// An object map.
    ObjectMap(ObjectMap),
    /// A pointer to the function of the given name.
    FnPtr(String),
}

/// An object map: properties with their values, in the order in which they
/// were first set. No property stands twice.
#[derive(Debug, PartialEq, Eq)]
pub struct ObjectMap {
    /// The properties, each with its value.
    pub entries: Vec<(String, Dynamic)>,
}

/// The mathematical value of a [`Dynamic`].
pub ghost enum DynamicV {
    Unit,
    Bool(bool),
    Int(i64),
    Float(u64),
    Char(char),
    Str(Seq<char>),
    Array(Seq<DynamicV>),
    ObjectMap(Seq<(Seq<char>, DynamicV)>),
    FnPtr(Seq<char>),
}

impl View for Dynamic {
    type V = DynamicV;

    open spec fn view(&self) -> DynamicV
        decreases self,
    {
        match self {
            Dynamic::Unit => DynamicV::Unit,
            Dynamic::Bool(b) => DynamicV::Bool(*b),
            Dynamic::Int(i) => DynamicV::Int(*i),
            Dynamic::Float(f) => DynamicV::Float(*f),
            Dynamic::Char(c) => DynamicV::Char(*c),
            Dynamic::Str(s) => DynamicV::Str(s@),
            Dynamic::Array(items) => DynamicV::Array(
                Seq::new(
                    items.len() as nat,
                    |i: int|
                        if 0 <= i < items.len() {
                            items[i].view()
                        } else {
                            DynamicV::Unit
                        },
                ),
            ),
            Dynamic::ObjectMap(m) => DynamicV::ObjectMap(
                Seq::new(
                    m.entries.len() as nat,
                    |i: int|
                        if 0 <= i < m.entries.len() {
                            (m.entries[i].0@, m.entries[i].1.view())
                        } else {
                            (Seq::empty(), DynamicV::Unit)
                        },
                ),
            ),
            Dynamic::FnPtr(s) => DynamicV::FnPtr(s@),
        }
    }
}

/// The values of a sequence of [`Dynamic`]s.
pub open spec fn dynamic_views(items: Seq<Dynamic>) -> Seq<DynamicV> {
    Seq::new(items.len(), |i: int| items[i]@)
}

/// The values of a sequence of properties.
pub open spec fn entry_views(entries: Seq<(String, Dynamic)>) -> Seq<(Seq<char>, DynamicV)> {
    Seq::new(entries.len(), |i: int| (entries[i].0@, entries[i].1@))
}

impl View for ObjectMap {
    type V = Seq<(Seq<char>, DynamicV)>;

    open spec fn view(&self) -> Seq<(Seq<char>, DynamicV)> {
        entry_views(self.entries@)
    }
}

/// The value of an array is the sequence of the values of its items.
pub proof fn lemma_array_view(d: Dynamic)
    requires
        d is Array,
    ensures
        d@ == DynamicV::Array(dynamic_views(d->Array_0@)),
{
    reveal_with_fuel(<Dynamic as View>::view, 2);
    assert(d@->Array_0 =~= dynamic_views(d->Array_0@));
}

/// The value of an object map is the sequence of the values of its entries.
pub proof fn lemma_map_view(d: Dynamic)
    requires
        d is ObjectMap,
    ensures
        d@ == DynamicV::ObjectMap(d->ObjectMap_0@),
{
    reveal_with_fuel(<Dynamic as View>::view, 2);
    assert(d@->ObjectMap_0 =~= d->ObjectMap_0@);
}

/// The properties of an object map, in order.
pub open spec fn map_keys(m: Seq<(Seq<char>, DynamicV)>) -> Seq<Seq<char>> {
    Seq::new(m.len(), |i: int| m[i].0)
}

/// No property stands twice.
pub open spec fn map_wf(m: Seq<(Seq<char>, DynamicV)>) -> bool {
    forall|i: int, j: int| 0 <= i < j < m.len() ==> m[i].0 != m[j].0
}

/// Does the map hold the property?
pub open spec fn map_has(m: Seq<(Seq<char>, DynamicV)>, key: Seq<char>) -> bool {
    map_keys(m).contains(key)
}

/// The value of a property, if the map holds it.
pub open spec fn map_get(m: Seq<(Seq<char>, DynamicV)>, key: Seq<char>) -> Option<DynamicV> {
    match map_keys(m).index_of_first(key) {
        Some(i) => Some(m[i].1),
        None => None,
    }
}

/// The map with the property set: in its place if the map held it, at the
/// end if not.
pub open spec fn map_insert(m: Seq<(Seq<char>, DynamicV)>, key: Seq<char>, value: DynamicV) -> Seq<
    (Seq<char>, DynamicV),
> {
    match map_keys(m).index_of_first(key) {
        Some(i) => m.update(i, (key, value)),
        None => m.push((key, value)),
    }
}

/// The map without the property.
pub open spec fn map_remove(m: Seq<(Seq<char>, DynamicV)>, key: Seq<char>) -> Seq<
    (Seq<char>, DynamicV),
> {
    match map_keys(m).index_of_first(key) {
        Some(i) => m.remove(i),
        None => m,
    }
}

/// Setting a property keeps the properties distinct.
pub proof fn lemma_map_insert_wf(m: Seq<(Seq<char>, DynamicV)>, key: Seq<char>, value: DynamicV)
    requires
        map_wf(m),
    ensures
        map_wf(map_insert(m, key, value)),
        map_has(map_insert(m, key, value), key),
        map_insert(m, key, value).len() == if map_has(m, key) {
            m.len()
        } else {
            m.len() + 1
        },
{
    lemma_index_of_first(map_keys(m), key);
    let r = map_insert(m, key, value);
    match map_keys(m).index_of_first(key) {
        Some(i) => {
            assert(map_keys(m)[i] == key);
            assert forall|a: int, b: int| 0 <= a < b < r.len() implies r[a].0 != r[b].0 by {
                assert(map_keys(m)[a] == m[a].0);
                assert(map_keys(m)[b] == m[b].0);
            }
            assert(map_keys(r)[i] == key);
        },
        None => {
            assert forall|a: int, b: int| 0 <= a < b < r.len() implies r[a].0 != r[b].0 by {
                if b == m.len() {
                    assert(map_keys(m)[a] != key);
                }
            }
            assert(map_keys(r)[m.len() as int] == key);
        },
    }
}

/// Removing a property keeps the properties distinct.
pub proof fn lemma_map_remove_wf(m: Seq<(Seq<char>, DynamicV)>, key: Seq<char>)
    requires
        map_wf(m),
    ensures
        map_wf(map_remove(m, key)),
        !map_has(map_remove(m, key), key),
{
    lemma_index_of_first(map_keys(m), key);
    let r = map_remove(m, key);
    match map_keys(m).index_of_first(key) {
        Some(i) => {
            assert(map_keys(m)[i] == key);
            assert forall|j: int| 0 <= j < r.len() implies map_keys(r)[j] != key by {
                if j < i {
                    assert(r[j] == m[j]);
                    assert(map_keys(m)[j] != key);
                } else {
                    assert(r[j] == m[j + 1]);
                }
            }
            lemma_no_index(map_keys(r), key);
        },
        None => {},
    }
}

impl ObjectMap {
    /// No property stands twice.
    pub open spec fn wf(&self) -> bool {
        map_wf(self@)
    }

    /// An empty object map.
    pub fn new() -> (r: ObjectMap)
        ensures
            r@ == Seq::<(Seq<char>, DynamicV)>::empty(),
            r.wf(),
    {
        let r = ObjectMap { entries: Vec::new() };
        assert(r@ =~= Seq::<(Seq<char>, DynamicV)>::empty());
        r
    }

    /// The place of a property among the entries.
    pub fn find(&self, key: &str) -> (r: Option<usize>)
        ensures
            match r {
                Some(i) => map_keys(self@).index_of_first(key@) == Some(i as int) && i
                    < self.entries@.len(),
                None => map_keys(self@).index_of_first(key@) is None,
            },
    {
        let mut i: usize = 0;
        while i < self.entries.len()
            invariant
                i <= self.entries@.len(),
                forall|j: int| 0 <= j < i ==> map_keys(self@)[j] != key@,
            decreases self.entries@.len() - i,
        {
            if str_eq(self.entries[i].0.as_str(), key) {
                proof {
                    lemma_first_index(map_keys(self@), key@, i as int);
                }
                return Some(i);
            }
            i = i + 1;
        }
        proof {
            lemma_no_index(map_keys(self@), key@);
        }
        None
    }

    /// The value of a property, if the map holds it.
    pub fn get(&self, key: &str) -> (r: Option<&Dynamic>)
        ensures
            match r {
                Some(v) => map_get(self@, key@) == Some(v@),
                None => map_get(self@, key@) is None,
            },
    {
        match self.find(key) {
            Some(i) => Some(&self.entries[i].1),
            None => None,
        }
    }

    /// Sets a property: in its place if the map holds it, at the end if not.
    pub fn insert(&mut self, key: String, value: Dynamic)
        ensures
            final(self)@ == map_insert(old(self)@, key@, value@),
    {
        match self.find(key.as_str()) {
            Some(i) => {
                self.entries.set(i, (key, value));
                assert(final(self)@ =~= map_insert(old(self)@, key@, value@));
            },
            None => {
                self.entries.push((key, value));
                assert(final(self)@ =~= map_insert(old(self)@, key@, value@));
            },
        }
    }

    /// Takes a property out of the map and returns its value.
    pub fn remove(&mut self, key: &str) -> (r: Option<Dynamic>)
        ensures
            final(self)@ == map_remove(old(self)@, key@),
            match r {
                Some(v) => map_get(old(self)@, key@) == Some(v@),
                None => map_get(old(self)@, key@) is None,
            },
    {
        match self.find(key) {
            Some(i) => {
                let entry = self.entries.remove(i);
                assert(final(self)@ =~= map_remove(old(self)@, key@));
                Some(entry.1)
            },
            None => None,
        }
    }
}

impl Dynamic {
    /// A copy of the value.
    pub fn clone_value(&self) -> (r: Dynamic)
        ensures
            r@ == self@,
        decreases self,
    {
        match self {
            Dynamic::Unit => Dynamic::Unit,
            Dynamic::Bool(b) => Dynamic::Bool(*b),
            Dynamic::Int(i) => Dynamic::Int(*i),
            Dynamic::Float(f) => Dynamic::Float(*f),
            Dynamic::Char(c) => Dynamic::Char(*c),
            Dynamic::Str(s) => Dynamic::Str(s.clone()),
            Dynamic::FnPtr(s) => Dynamic::FnPtr(s.clone()),
            Dynamic::Array(items) => {
                let mut copy: Vec<Dynamic> = Vec::new();
                let mut i: usize = 0;
                while i < items.len()
                    invariant
                        i <= items@.len(),
                        *self == Dynamic::Array(*items),
                        copy@.len() == i,
                        forall|j: int| 0 <= j < i ==> copy@[j]@ == items@[j]@,
                    decreases items@.len() - i,
                {
                    proof {
                        vstd::std_specs::vec::axiom_vec_index_decreases(*items, i as int);
                        assert(self->Array_0 == *items);
                    }
                    let item = items[i].clone_value();
                    copy.push(item);
                    i = i + 1;
                }
                let r = Dynamic::Array(copy);
                proof {
                    lemma_array_view(r);
                    lemma_array_view(*self);
                    assert(dynamic_views(copy@) =~= dynamic_views(items@));
                }
                r
            },
            Dynamic::ObjectMap(m) => {
                let mut copy: Vec<(String, Dynamic)> = Vec::new();
                let mut i: usize = 0;
                while i < m.entries.len()
                    invariant
                        i <= m.entries@.len(),
                        *self == Dynamic::ObjectMap(*m),
                        copy@.len() == i,
                        forall|j: int|
                            0 <= j < i ==> copy@[j].0@ == m.entries@[j].0@ && copy@[j].1@
                                == m.entries@[j].1@,
                    decreases m.entries@.len() - i,
                {
                    proof {
                        vstd::std_specs::vec::axiom_vec_index_decreases(m.entries, i as int);
                        assert(self->ObjectMap_0 == *m);
                    }
                    let value = m.entries[i].1.clone_value();
                    copy.push((m.entries[i].0.clone(), value));
                    i = i + 1;
                }
                let r = Dynamic::ObjectMap(ObjectMap { entries: copy });
                proof {
                    lemma_map_view(r);
                    lemma_map_view(*self);
                    assert(entry_views(copy@) =~= entry_views(m.entries@));
                }
                r
            },
        }
    }
}

} // verus!

