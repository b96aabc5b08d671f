//! Facts about finding the first occurrence of a value in a sequence.

use vstd::prelude::*;

verus! {

/// If `needle` stands at `i` and nowhere before, `i` is its first index.
pub proof fn lemma_first_index<A>(s: Seq<A>, needle: A, i: int)
    requires
        0 <= i < s.len(),
        s[i] == needle,
        forall|j: int| 0 <= j < i ==> s[j] != needle,
    ensures
        s.index_of_first(needle) == Some(i),
        s.contains(needle),
{
    s.index_of_first_ensures(needle);
    assert(s.contains(needle));
    let k = s.index_of_first(needle).unwrap();
    if k < i {
        assert(s[k] != needle);
    } else if k > i {
        assert(s[i] != needle);
    }
}

/// If `needle` stands nowhere, it has no first index.
pub proof fn lemma_no_index<A>(s: Seq<A>, needle: A)
    requires
        forall|j: int| 0 <= j < s.len() ==> s[j] != needle,
    ensures
        s.index_of_first(needle) is None,
        !s.contains(needle),
{
    s.index_of_first_ensures(needle);
}

/// What the first index says of the sequence.
pub proof fn lemma_index_of_first<A>(s: Seq<A>, needle: A)
    ensures
        match s.index_of_first(needle) {
            Some(i) => {
                &&& s.contains(needle)
                &&& 0 <= i < s.len()
                &&& s[i] == needle
                &&& forall|j: int| 0 <= j < i ==> s[j] != needle
            },
            None => !s.contains(needle) && forall|j: int| 0 <= j < s.len() ==> s[j] != needle,
        },
{
    s.index_of_first_ensures(needle);
}

} // verus!

verus! {

/// The keys of a list of pairs whose first part is a text.
pub open spec fn keys_of<T>(s: Seq<(String, T)>) -> Seq<Seq<char>> {
    Seq::new(s.len(), |i: int| s[i].0@)
}

/// The texts of a list of strings.
pub open spec fn texts_of(s: Seq<String>) -> Seq<Seq<char>> {
    Seq::new(s.len(), |i: int| s[i]@)
}

/// The place of the first pair with the given key.
pub fn find_key<T>(v: &Vec<(String, T)>, key: &str) -> (r: Option<usize>)
    ensures
        match r {
            Some(i) => keys_of(v@).index_of_first(key@) == Some(i as int) && i < v@.len()
                && v@[i as int].0@ == key@ && keys_of(v@).contains(key@),
            None => keys_of(v@).index_of_first(key@) is None && !keys_of(v@).contains(key@),
        },
{
    let mut i: usize = 0;
    while i < v.len()
        invariant
            i <= v@.len(),
            forall|j: int| 0 <= j < i ==> keys_of(v@)[j] != key@,
        decreases v@.len() - i,
    {
        if crate::strings::str_eq(v[i].0.as_str(), key) {
            proof {
                lemma_first_index(keys_of(v@), key@, i as int);
            }
            return Some(i);
        }
        i = i + 1;
    }
    proof {
        lemma_no_index(keys_of(v@), key@);
    }
    None
}

/// The place of the first string with the given text.
pub fn find_text(v: &Vec<String>, text: &str) -> (r: Option<usize>)
    ensures
        match r {
            Some(i) => texts_of(v@).index_of_first(text@) == Some(i as int) && i < v@.len()
                && v@[i as int]@ == text@ && texts_of(v@).contains(text@),
            None => texts_of(v@).index_of_first(text@) is None && !texts_of(v@).contains(text@),
        },
{
    let mut i: usize = 0;
    while i < v.len()
        invariant
            i <= v@.len(),
            forall|j: int| 0 <= j < i ==> texts_of(v@)[j] != text@,
        decreases v@.len() - i,
    {
        if crate::strings::str_eq(v[i].as_str(), text) {
            proof {
                lemma_first_index(texts_of(v@), text@, i as int);
            }
            return Some(i);
        }
        i = i + 1;
    }
    proof {
        lemma_no_index(texts_of(v@), text@);
    }
    None
}

} // verus!
