//! The hashes that the parser computes ahead of time: of a function's name
//! and number of arguments, of a constant value, and of the place of an
//! anonymous function.

use vstd::prelude::*;
use crate::ast::{Ident, ident_names, ident_views};
use crate::dynamic::{Dynamic, DynamicV, dynamic_views, lemma_array_view, lemma_map_view};
use crate::position::Position;
use crate::strings::{hex16, push_hex16};
use vstd::std_specs::hash::DefaultHasherAdditionalSpecFns;
use vstd::utf8::encode_utf8;
use std::collections::hash_map::DefaultHasher;
use std::hash::Hasher;

verus! {

/// The eight bytes of a 64-bit value, least significant first.
pub open spec fn u64_bytes(n: u64) -> Seq<u8> {
    Seq::new(8, |i: int| (n >> ((8 * i) as u64)) as u8)
}

/// What a hasher is fed for a 64-bit value.
fn write_u64(h: &mut DefaultHasher, n: u64)
    ensures
        final(h)@ == old(h)@.push(u64_bytes(n)),
{
    let mut bytes: Vec<u8> = Vec::new();
    let mut i: u64 = 0;
    while i < 8
        invariant
            i <= 8,
            bytes@ == u64_bytes(n).take(i as int),
        decreases 8 - i,
    {
        let shift: u64 = 8 * i;
        let b: u8 = #[verifier::truncate]
        ((n >> shift) as u8);
        bytes.push(b);
        assert(bytes@ =~= u64_bytes(n).take(i + 1));
        i = i + 1;
    }
    assert(bytes@ =~= u64_bytes(n));
    h.write(bytes.as_slice());
}

/// What a hasher is fed for a text: its UTF-8 bytes.
fn write_text(h: &mut DefaultHasher, s: &str)
    ensures
        final(h)@ == old(h)@.push(encode_utf8(s@)),
{
    h.write(s.as_bytes());
}

/// What a hasher is fed for a single byte.
fn write_byte(h: &mut DefaultHasher, b: u8)
    ensures
        final(h)@ == old(h)@.push(seq![b]),
{
    let mut bytes: Vec<u8> = Vec::new();
    bytes.push(b);
    assert(bytes@ =~= seq![b]);
    h.write(bytes.as_slice());
}

/// The byte strings of the modules that qualify a name.
pub open spec fn path_writes(path: Seq<Seq<char>>) -> Seq<Seq<u8>> {
    Seq::new(path.len(), |i: int| encode_utf8(path[i]))
}

/// What is hashed for a function: whether modules qualify it, the modules
/// after the first, the name, and the number of arguments.
pub open spec fn fn_hash_writes(qualifiers: Seq<Seq<char>>, name: Seq<char>, arity: nat) -> Seq<
    Seq<u8>,
> {
    if qualifiers.len() > 0 {
        seq![seq![1u8]] + path_writes(qualifiers.skip(1)) + seq![
            encode_utf8(name),
            u64_bytes(arity as u64),
        ]
    } else {
        seq![seq![0u8], encode_utf8(name), u64_bytes(arity as u64)]
    }
}

/// A hash that is never zero: zero is replaced by 42.
pub open spec fn nonzero(h: u64) -> u64 {
    if h == 0 {
        42
    } else {
        h
    }
}

/// The hash under which a script function is kept and called.
pub open spec fn script_fn_hash(qualifiers: Seq<Seq<char>>, name: Seq<char>, arity: nat) -> u64 {
    nonzero(DefaultHasher::spec_finish(fn_hash_writes(qualifiers, name, arity)))
}

/// Computes the hash under which a script function of the given name and
/// number of arguments is kept, qualified by the given modules.
pub fn calc_script_fn_hash(qualifiers: &Vec<Ident>, name: &str, arity: usize) -> (r: u64)
    ensures
        r == script_fn_hash(ident_names(ident_views(qualifiers@)), name@, arity as nat),
        r != 0,
{
    let ghost names = ident_names(ident_views(qualifiers@));
    assert(names.len() == qualifiers@.len());
    let mut h = DefaultHasher::new();
    if qualifiers.len() == 0 {
        write_byte(&mut h, 0);
    } else {
        write_byte(&mut h, 1);
        let mut i: usize = 1;
        while i < qualifiers.len()
            invariant
                1 <= i <= qualifiers@.len(),
                names == ident_names(ident_views(qualifiers@)),
                names.len() == qualifiers@.len(),
                h@ == seq![seq![1u8]] + path_writes(names.skip(1)).take(i - 1),
            decreases qualifiers@.len() - i,
        {
            write_text(&mut h, qualifiers[i].name.as_str());
            assert(names[i as int] == qualifiers@[i as int].name@);
            assert(path_writes(names.skip(1))[i - 1] == encode_utf8(names[i as int]));
            assert(h@ =~= seq![seq![1u8]] + path_writes(names.skip(1)).take(i as int));
            i = i + 1;
        }
        assert(path_writes(names.skip(1)).take(i - 1) =~= path_writes(names.skip(1)));
    }
    write_text(&mut h, name);
    write_u64(&mut h, arity as u64);
    assert(h@ =~= fn_hash_writes(names, name@, arity as nat));
    let hash = h.finish();
    if hash == 0 {
        42
    } else {
        hash
    }
}

/// What is hashed for a sequence of values, one after the other.
pub open spec fn array_writes(items: Seq<DynamicV>) -> Seq<Seq<u8>>
    decreases items,
{
    if items.len() == 0 {
        Seq::empty()
    } else {
        array_writes(items.drop_last()) + value_writes(items.last())
    }
}

/// The hashes of all properties combined, in a way that does not depend on
/// their order.
pub open spec fn map_digest(m: Seq<(Seq<char>, DynamicV)>) -> u64
    decreases m,
{
    if m.len() == 0 {
        0
    } else {
        map_digest(m.drop_last()) ^ DefaultHasher::spec_finish(
            seq![encode_utf8(m.last().0)] + value_writes(m.last().1),
        )
    }
}

/// What is hashed for a value: a byte for its kind, then what it holds.
pub open spec fn value_writes(v: DynamicV) -> Seq<Seq<u8>>
    decreases v,
{
    match v {
        DynamicV::Unit => seq![seq![0u8]],
        DynamicV::Bool(b) => seq![seq![1u8], seq![if b { 1u8 } else { 0u8 }]],
        DynamicV::Int(i) => seq![seq![2u8], u64_bytes(i as u64)],
        DynamicV::Float(f) => seq![seq![3u8], u64_bytes(f)],
        DynamicV::Char(c) => seq![seq![4u8], u64_bytes(c as u64)],
        DynamicV::Str(s) => seq![seq![5u8], encode_utf8(s)],
        DynamicV::Array(items) => seq![seq![6u8], u64_bytes(items.len() as u64)] + array_writes(
            items,
        ),
        DynamicV::ObjectMap(m) => seq![seq![7u8], u64_bytes(m.len() as u64), u64_bytes(
            map_digest(m),
        )],
        DynamicV::FnPtr(s) => seq![seq![8u8], encode_utf8(s)],
    }
}

/// The hash of a value. Values that are equal have the same hash.
pub open spec fn value_hash(v: DynamicV) -> u64 {
    DefaultHasher::spec_finish(value_writes(v))
}

/// Feeds a value to a hasher.
fn feed_value(h: &mut DefaultHasher, value: &Dynamic)
    ensures
        final(h)@ == old(h)@ + value_writes(value@),
    decreases value,
{
    match value {
        Dynamic::Unit => {
            write_byte(h, 0);
            assert(final(h)@ =~= old(h)@ + value_writes(value@));
        },
        Dynamic::Bool(b) => {
            write_byte(h, 1);
            write_byte(
                h,
                if *b {
                    1
                } else {
                    0
                },
            );
            assert(final(h)@ =~= old(h)@ + value_writes(value@));
        },
        Dynamic::Int(i) => {
            write_byte(h, 2);
            let n: u64 = #[verifier::truncate]
            (*i as u64);
            write_u64(h, n);
            assert(final(h)@ =~= old(h)@ + value_writes(value@));
        },
        Dynamic::Float(f) => {
            write_byte(h, 3);
            write_u64(h, *f);
            assert(final(h)@ =~= old(h)@ + value_writes(value@));
        },
        Dynamic::Char(c) => {
            write_byte(h, 4);
            write_u64(h, *c as u64);
            assert(final(h)@ =~= old(h)@ + value_writes(value@));
        },
        Dynamic::Str(s) => {
            write_byte(h, 5);
            write_text(h, s.as_str());
            assert(final(h)@ =~= old(h)@ + value_writes(value@));
        },
        Dynamic::FnPtr(s) => {
            write_byte(h, 8);
            write_text(h, s.as_str());
            assert(final(h)@ =~= old(h)@ + value_writes(value@));
        },
        Dynamic::Array(items) => {
            proof {
                lemma_array_view(*value);
            }
            write_byte(h, 6);
            write_u64(h, items.len() as u64);
            let ghost start = h@;
            let mut i: usize = 0;
            while i < items.len()
                invariant
                    i <= items@.len(),
                    value is Array,
                    value->Array_0 == *items,
                    h@ == start + array_writes(dynamic_views(items@).take(i as int)),
                decreases items@.len() - i,
            {
                proof {
                    vstd::std_specs::vec::axiom_vec_index_decreases(*items, i as int);
                    assert(dynamic_views(items@).take(i + 1).drop_last() =~= dynamic_views(
                        items@,
                    ).take(i as int));
                }
                feed_value(h, &items[i]);
                assert(h@ =~= start + array_writes(dynamic_views(items@).take(i + 1)));
                i = i + 1;
            }
            assert(dynamic_views(items@).take(i as int) =~= dynamic_views(items@));
            assert(final(h)@ =~= old(h)@ + value_writes(value@));
        },
        Dynamic::ObjectMap(m) => {
            proof {
                lemma_map_view(*value);
            }
            let mut digest: u64 = 0;
            let mut i: usize = 0;
            while i < m.entries.len()
                invariant
                    i <= m.entries@.len(),
                    value is ObjectMap,
                    value->ObjectMap_0 == *m,
                    digest == map_digest(m@.take(i as int)),
                decreases m.entries@.len() - i,
            {
                proof {
                    vstd::std_specs::vec::axiom_vec_index_decreases(m.entries, i as int);
                    assert(m@.take(i + 1).drop_last() =~= m@.take(i as int));
                }
                let mut entry = DefaultHasher::new();
                write_text(&mut entry, m.entries[i].0.as_str());
                feed_value(&mut entry, &m.entries[i].1);
                assert(entry@ =~= seq![encode_utf8(m.entries@[i as int].0@)] + value_writes(
                    m.entries@[i as int].1@,
                ));
                assert(m@.take(i + 1).last() == (m.entries@[i as int].0@, m.entries@[i as int].1@));
                digest = digest ^ entry.finish();
                i = i + 1;
            }
            assert(m@.take(i as int) =~= m@);
            write_byte(h, 7);
            write_u64(h, m.entries.len() as u64);
            write_u64(h, digest);
            assert(final(h)@ =~= old(h)@ + value_writes(value@));
        },
    }
}

/// Computes the hash of a value.
pub fn calc_value_hash(value: &Dynamic) -> (r: u64)
    ensures
        r == value_hash(value@),
{
    let mut h = DefaultHasher::new();
    feed_value(&mut h, value);
    assert(h@ =~= value_writes(value@));
    h.finish()
}

/// The hash of the place of an anonymous function in a script.
pub open spec fn anon_fn_hash(script_hash: u64, pos: Position) -> u64 {
    DefaultHasher::spec_finish(
        seq![u64_bytes(script_hash), u64_bytes(pos.line as u64), u64_bytes(pos.pos as u64)],
    )
}

/// The name of the anonymous function at `pos` in the script with the given
/// fingerprint: a fixed prefix and the sixteen hexadecimal digits of a hash
/// of the two.
pub open spec fn anon_fn_name(script_hash: u64, pos: Position) -> Seq<char> {
    "anon$"@ + hex16(anon_fn_hash(script_hash, pos))
}

/// Makes the name of the anonymous function at `pos`. The name depends on
/// nothing but the fingerprint of the script and the position.
pub fn make_anon_fn_name(script_hash: u64, pos: Position) -> (r: String)
    ensures
        r@ == anon_fn_name(script_hash, pos),
{
    let mut h = DefaultHasher::new();
    write_u64(&mut h, script_hash);
    write_u64(&mut h, pos.line as u64);
    write_u64(&mut h, pos.pos as u64);
    assert(h@ =~= seq![
        u64_bytes(script_hash),
        u64_bytes(pos.line as u64),
        u64_bytes(pos.pos as u64),
    ]);
    let hash = h.finish();
    let mut name = String::from_str("anon$");
    push_hex16(&mut name, hash);
    name
}

} // verus!
