use vstd::prelude::*;
use crate::args::{heap, intern, intern_in, HeapView, ObjectView};
use crate::function::Chunk;
use crate::names::str_equal;
use crate::throw::{property_exec, property_from};
use crate::value::{array_get, data_handle_ok, Arena, ArrayKey, PhpValue};

verus! {

/// What compiled code reads from `array_val[key_val]`, and the heap after:
/// an integer key selects that integer, a string key its interned id (the
/// string is interned when new); the element, or `null` when there is none,
/// the key is of another kind or `array_val` is no array.
pub open spec fn jit_element(h: HeapView, array_val: PhpValue, key_val: PhpValue) -> (PhpValue, HeapView) {
    match array_val {
        PhpValue::Array(a) => {
            let (key, after) = match key_val {
                PhpValue::Int(i) => (Some(ArrayKey::Int(i as i64)), h),
                PhpValue::Str(s) => {
                    let (id, h2) = intern_in(h, h.0[s as int]);
                    (Some(ArrayKey::StringId(id)), h2)
                },
                _ => (None, h),
            };
            match key {
                Some(k) => (
                    match array_get(h.1[a as int], k) {
                        Some(v) => v,
                        None => PhpValue::Null,
                    },
                    after,
                ),
                None => (PhpValue::Null, h),
            }
        },
        _ => (PhpValue::Null, h),
    }
}

/// Reads `array_val[key_val]` for compiled code (see [`jit_element`]).
pub fn jit_fetch_array_element(arena: &mut Arena, array_val: PhpValue, key_val: PhpValue) -> (r: PhpValue)
    requires
        data_handle_ok(old(arena), array_val),
        data_handle_ok(old(arena), key_val),
    ensures
        (r, heap(final(arena))) == jit_element(heap(old(arena)), array_val, key_val),
        final(arena).closures == old(arena).closures,
{
    match array_val {
        PhpValue::Array(a) => {
            let key = match key_val {
                PhpValue::Int(i) => ArrayKey::Int(i as i64),
                PhpValue::Str(s) => {
                    let text = arena.strings[s].clone();
                    let id = intern(arena, text.as_str());
                    ArrayKey::StringId(id)
                },
                _ => {
                    return PhpValue::Null;
                },
            };
            assert(heap(arena).1.len() == arena.arrays@.len());
            assert(heap(arena).1[a as int] == arena.arrays@[a as int].view());
            match arena.arrays[a].get(key) {
                Some(v) => v,
                None => PhpValue::Null,
            }
        },
        _ => PhpValue::Null,
    }
}

/// The name constant `name_idx` of a chunk, when it is a string, as text.
pub open spec fn constant_name(a: &Arena, chunk: &Chunk, name_idx: u16) -> Option<Seq<char>> {
    match chunk.constants@[name_idx as int] {
        PhpValue::Str(s) => Some(a.strings@[s as int]@),
        _ => None,
    }
}

/// Compiled code's view of an object, a chunk and a name constant: both
/// present, the object and the constant in range, and a string constant's
/// text in the heap.
pub open spec fn jit_property_ok(a: &Arena, obj: Option<usize>, name_idx: u16, chunk: Option<&Chunk>) -> bool {
    match (obj, chunk) {
        (Some(o), Some(c)) => {
            &&& o < a.objects@.len()
            &&& name_idx < c.constants@.len()
            &&& data_handle_ok(a, c.constants@[name_idx as int])
        },
        _ => true,
    }
}

/// Reads the property named by constant `name_idx` of `chunk` from object
/// `obj` for compiled code: its value, or `null` when the object or the
/// chunk is missing, the constant is no string or the object has no such
/// property.
pub fn jit_fetch_object_property(arena: &Arena, obj: Option<usize>, name_idx: u16, chunk: Option<&Chunk>) -> (r: PhpValue)
    requires
        jit_property_ok(arena, obj, name_idx, chunk),
    ensures
        r == match (obj, chunk) {
            (Some(o), Some(c)) => match constant_name(arena, c, name_idx) {
                Some(n) => match property_from(arena.objects@[o as int].properties@, n, 0) {
                    Some(v) => v,
                    None => PhpValue::Null,
                },
                None => PhpValue::Null,
            },
            _ => PhpValue::Null,
        },
{
    let (o, c) = match (obj, chunk) {
        (Some(o), Some(c)) => (o, c),
        _ => {
            return PhpValue::Null;
        },
    };
    match c.constants[name_idx as usize] {
        PhpValue::Str(s) => match property_exec(&arena.objects[o].properties, arena.strings[s].as_str()) {
            Some(v) => v,
            None => PhpValue::Null,
        },
        _ => PhpValue::Null,
    }
}

/// The first index, from `i` on, of a property named `name`.
pub open spec fn property_index(props: Seq<(Seq<char>, PhpValue)>, name: Seq<char>, i: int) -> Option<int>
    decreases props.len() - i,
{
    if i < 0 || i >= props.len() {
        None
    } else if props[i].0 == name {
        Some(i)
    } else {
        property_index(props, name, i + 1)
    }
}

/// A property list after `name` is set to `v`: the first property of that
/// name takes the value in its place, else the property is added last.
pub open spec fn property_set(props: Seq<(Seq<char>, PhpValue)>, name: Seq<char>, v: PhpValue) -> Seq<(Seq<char>, PhpValue)> {
    match property_index(props, name, 0) {
        Some(i) => props.update(i, (name, v)),
        None => props.push((name, v)),
    }
}

/// An object whose property `name` is set to `v`.
pub open spec fn with_property(o: ObjectView, name: Seq<char>, v: PhpValue) -> ObjectView {
    (o.0, o.1, property_set(o.2, name, v), o.3)
}

/// Sets property `name` of a property list to `v` (see [`property_set`]).
fn set_property(props: &mut Vec<(String, PhpValue)>, name: String, v: PhpValue)
    ensures
        crate::enums::named_view(final(props)@) == property_set(crate::enums::named_view(old(props)@), name@, v),
{
    let ghost pv = crate::enums::named_view(old(props)@);
    let mut i: usize = 0;
    while i < props.len()
        invariant
            i <= props@.len(),
            *props == *old(props),
            pv == crate::enums::named_view(props@),
            property_index(pv, name@, 0) == property_index(pv, name@, i as int),
        decreases props@.len() - i,
    {
        if str_equal(props[i].0.as_str(), name.as_str()) {
            assert(property_index(pv, name@, i as int) == Some(i as int));
            props.set(i, (name, v));
            proof {
                assert(crate::enums::named_view(props@) =~= pv.update(i as int, (name@, v)));
            }
            return;
        }
        i = i + 1;
    }
    let ghost nv = name@;
    props.push((name, v));
    proof {
        assert(crate::enums::named_view(props@) =~= pv.push((nv, v)));
    }
}

/// Sets the property named by constant `name_idx` of `chunk` on object
/// `obj` to `val` for compiled code; nothing happens when the object or the
/// chunk is missing or the constant is no string.
pub fn jit_set_object_property(arena: &mut Arena, obj: Option<usize>, val: PhpValue, name_idx: u16, chunk: Option<&Chunk>)
    requires
        jit_property_ok(old(arena), obj, name_idx, chunk),
    ensures
        final(arena).closures == old(arena).closures,
        heap(final(arena)) == match (obj, chunk) {
            (Some(o), Some(c)) => match constant_name(old(arena), c, name_idx) {
                Some(n) => {
                    let h = heap(old(arena));
                    (h.0, h.1, h.2.update(o as int, with_property(h.2[o as int], n, val)), h.3)
                },
                None => heap(old(arena)),
            },
            _ => heap(old(arena)),
        },
{
    let (o, c) = match (obj, chunk) {
        (Some(o), Some(c)) => (o, c),
        _ => {
            return;
        },
    };
    let s = match c.constants[name_idx as usize] {
        PhpValue::Str(s) => s,
        _ => {
            return;
        },
    };
    let name = arena.strings[s].clone();
    set_property(&mut arena.objects[o].properties, name, val);
    proof {
        let h = heap(old(arena));
        assert(heap(arena).2 =~= h.2.update(o as int, with_property(h.2[o as int], constant_name(old(arena), c, name_idx)->0, val)));
        assert(heap(arena).0 =~= h.0);
        assert(heap(arena).1 =~= h.1);
        assert(heap(arena).3 =~= h.3);
    }
}

/// Looking a property up in a list of named values, from index `i` on.
pub open spec fn property_lookup(ps: Seq<(Seq<char>, PhpValue)>, name: Seq<char>, i: int) -> Option<PhpValue> {
    match property_index(ps, name, i) {
        Some(j) => Some(ps[j].1),
        None => None,
    }
}

/// Reading a property of an object is looking its name up in the object's
/// named values.
pub proof fn lemma_property_from_named(props: Seq<(String, PhpValue)>, name: Seq<char>, i: int)
    requires
        0 <= i,
    ensures
        property_from(props, name, i) == property_lookup(crate::enums::named_view(props), name, i),
    decreases props.len() - i,
{
    let pv = crate::enums::named_view(props);
    if i < props.len() {
        assert(pv[i] == (props[i].0@, props[i].1));
        lemma_property_from_named(props, name, i + 1);
    }
}

/// Two lists with the same names at the same places find a name at the
/// same index.
proof fn lemma_index_same_names(a: Seq<(Seq<char>, PhpValue)>, b: Seq<(Seq<char>, PhpValue)>, m: Seq<char>, k: int)
    requires
        a.len() == b.len(),
        forall|j: int| 0 <= j < a.len() ==> (#[trigger] a[j]).0 == b[j].0,
    ensures
        property_index(a, m, k) == property_index(b, m, k),
    decreases a.len() - k,
{
    if 0 <= k < a.len() {
        assert(a[k].0 == b[k].0);
        lemma_index_same_names(a, b, m, k + 1);
    }
}

/// Adding a named value last leaves the index of any name found before.
proof fn lemma_index_push(a: Seq<(Seq<char>, PhpValue)>, e: (Seq<char>, PhpValue), m: Seq<char>, k: int)
    requires
        0 <= k <= a.len(),
    ensures
        property_index(a.push(e), m, k) == match property_index(a, m, k) {
            Some(j) => Some(j),
            None => if e.0 == m {
                Some(a.len() as int)
            } else {
                None
            },
        },
    decreases a.len() - k,
{
    if k < a.len() {
        assert(a.push(e)[k] == a[k]);
        lemma_index_push(a, e, m, k + 1);
    } else {
        assert(a.push(e)[k] == e);
        assert(property_index(a.push(e), m, k + 1) == None::<int>);
    }
}

/// After property `n` is set to `v`, looking up `n` gives `v`, and looking
/// up any other name gives what it gave before.
pub proof fn lemma_property_set(pv: Seq<(Seq<char>, PhpValue)>, n: Seq<char>, v: PhpValue, m: Seq<char>)
    ensures
        property_lookup(property_set(pv, n, v), n, 0) == Some(v),
        m != n ==> property_lookup(property_set(pv, n, v), m, 0) == property_lookup(pv, m, 0),
{
    let after = property_set(pv, n, v);
    match property_index(pv, n, 0) {
        Some(i) => {
            lemma_index_bounds(pv, n, 0);
            lemma_index_same_names(after, pv, n, 0);
            lemma_index_same_names(after, pv, m, 0);
            if m != n {
                match property_index(pv, m, 0) {
                    Some(j) => {
                        lemma_index_bounds(pv, m, 0);
                        assert(j != i);
                    },
                    None => {},
                }
            }
        },
        None => {
            lemma_index_push(pv, (n, v), n, 0);
            lemma_index_push(pv, (n, v), m, 0);
            match property_index(pv, m, 0) {
                Some(j) => {
                    lemma_index_bounds(pv, m, 0);
                },
                None => {},
            }
        },
    }
}

/// A found index is in range and names the name looked for.
proof fn lemma_index_bounds(ps: Seq<(Seq<char>, PhpValue)>, name: Seq<char>, i: int)
    ensures
        property_index(ps, name, i) matches Some(j) ==> i <= j < ps.len() && ps[j].0 == name,
    decreases ps.len() - i,
{
    if 0 <= i < ps.len() && ps[i].0 != name {
        lemma_index_bounds(ps, name, i + 1);
    }
}

} // verus!
