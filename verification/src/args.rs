use vstd::prelude::*;
use dashmap::DashMap;
use crate::classes::{EngineState, PhpClass, scan_from, scan_classes};
use crate::external::{constant_entries, constants_get, index_entries, index_get};
use crate::function::{DefaultValue, CompiledParam, PhpFunction};
use crate::names::{ascii_lower, chars_of, eq_ignore_ascii_case, normalize_name, normalized, push_char, str_equal};
use crate::value::{Arena, ArrayKey, ArrayView, PhpArray, PhpObject, PhpValue, array_insert};

verus! {

/// An object as plain values: class id, class name, properties, and whether
/// its destructor ran.
pub type ObjectView = (usize, Option<Seq<char>>, Seq<(Seq<char>, PhpValue)>, bool);

/// The heap as plain values: strings, arrays, objects and the intern table.
pub type HeapView = (Seq<Seq<char>>, Seq<ArrayView>, Seq<ObjectView>, Seq<Seq<char>>);

/// An object as plain values.
pub open spec fn object_view(o: PhpObject) -> ObjectView {
    (
        o.class_id,
        crate::classes::opt_str(o.class_name),
        o.properties@.map_values(|p: (String, PhpValue)| (p.0@, p.1)),
        o.destructed,
    )
}

/// The heap of an arena as plain values.
pub open spec fn heap(a: &Arena) -> HeapView {
    (
        a.strings@.map_values(|s: String| s@),
        a.arrays@.map_values(|x: PhpArray| x.view()),
        a.objects@.map_values(|o: PhpObject| object_view(o)),
        a.interned@.map_values(|s: String| s@),
    )
}

/// The first index at `i` or later of `s` in an intern table.
pub open spec fn intern_index_from(t: Seq<Seq<char>>, s: Seq<char>, i: int) -> Option<int>
    decreases t.len() - i,
{
    if i < 0 || i >= t.len() {
        None
    } else if t[i] == s {
        Some(i)
    } else {
        intern_index_from(t, s, i + 1)
    }
}

/// Interning `s`: its first index in the table, or a new last entry.
pub open spec fn intern_in(h: HeapView, s: Seq<char>) -> (usize, HeapView) {
    match intern_index_from(h.3, s, 0) {
        Some(i) => (i as usize, h),
        None => (h.3.len() as usize, (h.0, h.1, h.2, h.3.push(s))),
    }
}

/// The part of a name after its last `\`.
pub open spec fn last_segment(s: Seq<char>) -> Seq<char>
    decreases s.len(),
{
    if s.len() == 0 {
        s
    } else if s.last() == '\\' {
        seq![]
    } else {
        last_segment(s.drop_last()).push(s.last())
    }
}

/// A constant looked up the way PHP resolves names: as written, then by its
/// last namespace segment.
pub open spec fn constant_lookup(e: &EngineState, name: Seq<char>) -> Option<PhpValue> {
    let t = constant_entries(e.constants);
    if t.contains_key(name) {
        Some(t[name])
    } else if last_segment(name) != name && t.contains_key(last_segment(name)) {
        Some(t[last_segment(name)])
    } else {
        None
    }
}

/// Resolves a constant name against the constant table: the name as
/// written, else its last namespace segment.
pub fn resolve_constant(constants: &DashMap<String, PhpValue>, name: &str) -> (r: Option<PhpValue>)
    ensures
        ({
            let t = constant_entries(*constants);
            r == if t.contains_key(name@) {
                Some(t[name@])
            } else if last_segment(name@) != name@ && t.contains_key(last_segment(name@)) {
                Some(t[last_segment(name@)])
            } else {
                None
            }
        }),
{
    match constants_get(constants, name) {
        Some(v) => {
            return Some(v);
        },
        None => {},
    }
    let short = last_segment_exec(name);
    if !str_equal(short.as_str(), name) {
        return constants_get(constants, short.as_str());
    }
    None
}

fn last_segment_exec(s: &str) -> (r: String)
    ensures
        r@ == last_segment(s@),
{
    let mut out = String::new();
    for c in it: s.chars()
        invariant
            it.seq() == s@,
            out@ == last_segment(s@.take(it.index() as int)),
    {
        proof {
            assert(s@.take(it.index() as int + 1).drop_last() =~= s@.take(it.index() as int));
        }
        if c == '\\' {
            out = String::new();
        } else {
            push_char(&mut out, c);
        }
    }
    proof {
        assert(s@.take(s@.len() as int) =~= s@);
    }
    out
}

/// Whether the statics table holds a value for `(class, name)`, and which
/// (the first entry).
pub open spec fn static_value_from(statics: Seq<((String, String), PhpValue)>, class: Seq<char>, name: Seq<char>, i: int) -> Option<PhpValue>
    decreases statics.len() - i,
{
    if i < 0 || i >= statics.len() {
        None
    } else if statics[i].0.0@ == class && statics[i].0.1@ == name {
        Some(statics[i].1)
    } else {
        static_value_from(statics, class, name, i + 1)
    }
}

/// The class a class name leads to when walking parents for a class
/// constant: through the class index (the walk stops when the id holds no
/// class), else the first class of that normalized name.
pub open spec fn class_for_walk(e: &EngineState, name: Seq<char>) -> Option<PhpClass> {
    let n = normalized(name);
    if index_entries(e.class_map).contains_key(n) {
        let id = index_entries(e.class_map)[n] as int;
        if 0 <= id < e.classes@.len() {
            Some(e.classes@[id])
        } else {
            None
        }
    } else {
        match scan_from(e.classes@, n, 0) {
            Some(i) => Some(e.classes@[i]),
            None => None,
        }
    }
}

/// The value of class constant `k` found in the statics table from class
/// `cur` up its ancestry, with `fuel` steps; `Some(None)` when the walk ends
/// without one.
pub open spec fn class_constant_walk(e: &EngineState, cur: Seq<char>, k: Seq<char>, fuel: nat) -> Option<Option<PhpValue>>
    decreases fuel,
{
    if fuel == 0 {
        None
    } else {
        match static_value_from(e.default_statics@, normalized(cur), k, 0) {
            Some(v) => Some(Some(v)),
            None => match class_for_walk(e, cur) {
                Some(c) => match c.extends {
                    Some(p) => class_constant_walk(e, p@, k, (fuel - 1) as nat),
                    None => Some(None),
                },
                None => Some(None),
            },
        }
    }
}

/// The value a `Class::CONST` default takes when it is not `::class`: the
/// constant `Class::CONST` if defined, else the class constant found up the
/// ancestry, else `null`. `None` when the ancestry does not end.
pub open spec fn class_constant_value(e: &EngineState, c: Seq<char>, k: Seq<char>) -> Option<PhpValue> {
    match constant_lookup(e, c + "::"@ + k) {
        Some(v) => Some(v),
        None => match class_constant_walk(e, c, k, (e.classes@.len() + 1) as nat) {
            Some(Some(v)) => Some(v),
            Some(None) => Some(PhpValue::Null),
            None => None,
        },
    }
}

/// A new object of the class a `new` default names, as the engine builds it
/// without running a constructor.
pub open spec fn new_object(e: &EngineState, c: Seq<char>) -> ObjectView {
    let n = normalized(c);
    let id: usize = if index_entries(e.class_map).contains_key(n) { index_entries(e.class_map)[n] } else { 0 };
    let name: Option<Seq<char>> = if id < e.classes@.len() { Some(e.classes@[id as int].name@) } else { None };
    (id, name, seq![], false)
}

/// Evaluating a parameter default on heap `h`: the value and the heap after
/// it (strings, arrays and objects are allocated at the end of their
/// lists). `None` when a class-constant walk does not end.
pub open spec fn eval_default(e: &EngineState, d: DefaultValue, h: HeapView) -> Option<(PhpValue, HeapView)>
    decreases d, 0int,
{
    match d {
        DefaultValue::Int(i) => Some((PhpValue::Int(i as i32), h)),
        DefaultValue::Float(b) => Some((PhpValue::Float(b), h)),
        DefaultValue::String(s) => Some((PhpValue::Str(h.0.len() as usize), (h.0.push(s@), h.1, h.2, h.3))),
        DefaultValue::Bool(b) => Some((PhpValue::Bool(b), h)),
        DefaultValue::Null => Some((PhpValue::Null, h)),
        DefaultValue::Constant(n) => Some((
            match constant_lookup(e, n@) {
                Some(v) => v,
                None => PhpValue::Null,
            },
            h,
        )),
        DefaultValue::ClassConstant(c, k) => if ascii_lower(k@) == ascii_lower("class"@) {
            Some((PhpValue::Str(h.0.len() as usize), (h.0.push(c@), h.1, h.2, h.3)))
        } else {
            match class_constant_value(e, c@, k@) {
                Some(v) => Some((v, h)),
                None => None,
            }
        },
        DefaultValue::Array(items) => match eval_items(e, items@, h, items@.len() as int) {
            Some((arr, h2)) => Some((PhpValue::Array(h2.1.len() as usize), (h2.0, h2.1.push(arr), h2.2, h2.3))),
            None => None,
        },
        DefaultValue::New(c, args) => Some((
            PhpValue::Object(h.2.len() as usize),
            (h.0, h.1, h.2.push(new_object(e, c@)), h.3),
        )),
    }
}

/// Evaluating the first `n` items of an array default: each value, then its
/// key (a string key is interned, an integer key kept, no key appends), and
/// the array they build.
pub open spec fn eval_items(
    e: &EngineState,
    items: Seq<(Option<DefaultValue>, DefaultValue)>,
    h: HeapView,
    n: int,
) -> Option<(ArrayView, HeapView)>
    decreases items, n,
{
    if n <= 0 || n > items.len() {
        Some(((seq![], 0i64), h))
    } else {
        match eval_items(e, items, h, n - 1) {
            None => None,
            Some((arr, h1)) => match eval_default(e, items[n - 1].1, h1) {
                None => None,
                Some((v, h2)) => match items[n - 1].0 {
                    Some(DefaultValue::String(s)) => {
                        let (id, h3) = intern_in(h2, s@);
                        Some((array_insert(arr, ArrayKey::StringId(id), v), h3))
                    },
                    Some(DefaultValue::Int(i)) => Some((array_insert(arr, ArrayKey::Int(i), v), h2)),
                    _ => Some((array_insert(arr, ArrayKey::Int(arr.1), v), h2)),
                },
            },
        }
    }
}

pub(crate) fn alloc_string(arena: &mut Arena, s: String) -> (r: PhpValue)
    ensures
        r == PhpValue::Str(heap(old(arena)).0.len() as usize),
        heap(final(arena)) == (heap(old(arena)).0.push(s@), heap(old(arena)).1, heap(old(arena)).2, heap(old(arena)).3),
        final(arena).closures == old(arena).closures,
{
    let h = arena.strings.len();
    arena.strings.push(s);
    proof {
        assert(heap(arena).0 =~= heap(old(arena)).0.push(s@));
        assert(heap(arena).1 =~= heap(old(arena)).1);
        assert(heap(arena).2 =~= heap(old(arena)).2);
        assert(heap(arena).3 =~= heap(old(arena)).3);
    }
    PhpValue::Str(h)
}

pub(crate) fn alloc_array(arena: &mut Arena, a: PhpArray) -> (r: PhpValue)
    ensures
        r == PhpValue::Array(heap(old(arena)).1.len() as usize),
        heap(final(arena)) == (heap(old(arena)).0, heap(old(arena)).1.push(a.view()), heap(old(arena)).2, heap(old(arena)).3),
        final(arena).closures == old(arena).closures,
{
    let h = arena.arrays.len();
    let ghost av = a.view();
    arena.arrays.push(a);
    proof {
        assert(heap(arena).0 =~= heap(old(arena)).0);
        assert(heap(arena).1 =~= heap(old(arena)).1.push(av));
        assert(heap(arena).2 =~= heap(old(arena)).2);
        assert(heap(arena).3 =~= heap(old(arena)).3);
    }
    PhpValue::Array(h)
}

pub(crate) fn alloc_object(arena: &mut Arena, o: PhpObject) -> (r: PhpValue)
    ensures
        r == PhpValue::Object(heap(old(arena)).2.len() as usize),
        heap(final(arena)) == (heap(old(arena)).0, heap(old(arena)).1, heap(old(arena)).2.push(object_view(o)), heap(old(arena)).3),
        final(arena).closures == old(arena).closures,
{
    let h = arena.objects.len();
    let ghost ov = object_view(o);
    arena.objects.push(o);
    proof {
        assert(heap(arena).0 =~= heap(old(arena)).0);
        assert(heap(arena).1 =~= heap(old(arena)).1);
        assert(heap(arena).2 =~= heap(old(arena)).2.push(ov));
        assert(heap(arena).3 =~= heap(old(arena)).3);
    }
    PhpValue::Object(h)
}

pub(crate) fn intern(arena: &mut Arena, s: &str) -> (r: usize)
    ensures
        (r, heap(final(arena))) == intern_in(heap(old(arena)), s@),
        final(arena).closures == old(arena).closures,
{
    let ghost t = heap(old(arena)).3;
    let mut i: usize = 0;
    while i < arena.interned.len()
        invariant
            i <= arena.interned@.len(),
            *arena == *old(arena),
            t == heap(old(arena)).3,
            intern_index_from(t, s@, 0) == intern_index_from(t, s@, i as int),
        decreases arena.interned@.len() - i,
    {
        if str_equal(arena.interned[i].as_str(), s) {
            assert(t[i as int] == s@);
            return i;
        }
        i = i + 1;
    }
    arena.interned.push(s.to_owned());
    proof {
        assert(heap(arena).0 =~= heap(old(arena)).0);
        assert(heap(arena).1 =~= heap(old(arena)).1);
        assert(heap(arena).2 =~= heap(old(arena)).2);
        assert(heap(arena).3 =~= t.push(s@));
    }
    i
}

fn static_value(statics: &Vec<((String, String), PhpValue)>, class: &str, name: &str) -> (r: Option<PhpValue>)
    ensures
        r == static_value_from(statics@, class@, name@, 0),
{
    let mut i: usize = 0;
    while i < statics.len()
        invariant
            i <= statics@.len(),
            static_value_from(statics@, class@, name@, 0) == static_value_from(statics@, class@, name@, i as int),
        decreases statics@.len() - i,
    {
        if str_equal(statics[i].0.0.as_str(), class) && str_equal(statics[i].0.1.as_str(), name) {
            return Some(statics[i].1);
        }
        i = i + 1;
    }
    None
}

fn class_for_walk_exec<'a>(e: &'a EngineState, name: &str) -> (r: Option<&'a PhpClass>)
    ensures
        match r {
            Some(c) => class_for_walk(e, name@) == Some(*c),
            None => class_for_walk(e, name@) is None,
        },
{
    let n = normalize_name(name);
    match index_get(&e.class_map, n.as_str()) {
        Some(id) => {
            if id < e.classes.len() {
                Some(&e.classes[id])
            } else {
                None
            }
        },
        None => match scan_classes(e.classes.as_slice(), &n) {
            Some(i) => Some(&e.classes[i]),
            None => None,
        },
    }
}

fn class_constant_exec(e: &EngineState, c: &str, k: &str) -> (r: PhpValue)
    requires
        class_constant_value(e, c@, k@) is Some,
    ensures
        class_constant_value(e, c@, k@) == Some(r),
{
    let mut full = c.to_owned();
    full.append("::");
    full.append(k);
    match resolve_constant(&e.constants, full.as_str()) {
        Some(v) => {
            return v;
        },
        None => {},
    }
    let ghost total = class_constant_walk(e, c@, k@, (e.classes@.len() + 1) as nat);
    let ghost mut fuel: nat = (e.classes@.len() + 1) as nat;
    let mut cur = c.to_owned();
    loop
        invariant
            class_constant_walk(e, cur@, k@, fuel) == total,
            total == class_constant_walk(e, c@, k@, (e.classes@.len() + 1) as nat),
            total is Some,
            constant_lookup(e, c@ + "::"@ + k@) is None,
        decreases fuel,
    {
        assert(fuel > 0);
        let norm = normalize_name(cur.as_str());
        match static_value(&e.default_statics, norm.as_str(), k) {
            Some(v) => {
                return v;
            },
            None => {},
        }
        match class_for_walk_exec(e, cur.as_str()) {
            Some(cls) => match &cls.extends {
                Some(p) => {
                    cur = p.clone();
                    proof {
                        fuel = (fuel - 1) as nat;
                    }
                },
                None => {
                    return PhpValue::Null;
                },
            },
            None => {
                return PhpValue::Null;
            },
        }
    }
}

impl crate::vm::VM {
    /// Evaluates a parameter default without a running fibre (see
    /// [`eval_default`]): strings, arrays and objects are allocated in the
    /// arena; a `new` default makes the object without running its
    /// constructor.
    pub fn default_val_to_value(engine_state: &EngineState, def: &DefaultValue, arena: &mut Arena) -> (r: PhpValue)
        requires
            eval_default(engine_state, *def, heap(old(arena))) is Some,
        ensures
            eval_default(engine_state, *def, heap(old(arena))) == Some((r, heap(final(arena)))),
            final(arena).closures == old(arena).closures,
        decreases def,
    {
        match def {
            DefaultValue::Int(v) => PhpValue::Int(*v as i32),
            DefaultValue::Float(b) => PhpValue::Float(*b),
            DefaultValue::String(s) => alloc_string(arena, s.clone()),
            DefaultValue::Bool(b) => PhpValue::Bool(*b),
            DefaultValue::Null => PhpValue::Null,
            DefaultValue::Constant(name) => match resolve_constant(&engine_state.constants, name.as_str()) {
                Some(v) => v,
                None => PhpValue::Null,
            },
            DefaultValue::ClassConstant(class_name, const_name) => {
                if eq_ignore_ascii_case(const_name.as_str(), "class") {
                    alloc_string(arena, class_name.clone())
                } else {
                    class_constant_exec(engine_state, class_name.as_str(), const_name.as_str())
                }
            },
            DefaultValue::Array(items) => {
                let mut arr = PhpArray::new();
                let mut i: usize = 0;
                while i < items.len()
                    invariant
                        i <= items@.len(),
                        *def is Array,
                        (*def)->Array_0 == *items,
                        eval_items(engine_state, items@, heap(old(arena)), items@.len() as int) is Some,
                        eval_items(engine_state, items@, heap(old(arena)), i as int) == Some((arr.view(), heap(arena))),
                        arena.closures == old(arena).closures,
                    decreases items@.len() - i,
                {
                    proof {
                        lemma_eval_items_prefix(engine_state, items@, heap(old(arena)), i as int + 1, items@.len() as int);
                    }
                    proof {
                        assert(*def is Array);
                        assert(*items == (*def)->Array_0);
                        assert(decreases_to!(*def => (*def)->Array_0));
                        assert(decreases_to!(*items => items@));
                        assert(decreases_to!(items@ => items@[i as int]));
                        assert(decreases_to!(items@[i as int] => items@[i as int].1));
                    }
                    let v = Self::default_val_to_value(engine_state, &items[i].1, arena);
                    match &items[i].0 {
                        Some(DefaultValue::String(s)) => {
                            let id = intern(arena, s.as_str());
                            arr.insert(ArrayKey::StringId(id), v);
                        },
                        Some(DefaultValue::Int(k)) => {
                            arr.insert(ArrayKey::Int(*k), v);
                        },
                        _ => {
                            let k = arr.next_free_int_key();
                            arr.insert(ArrayKey::Int(k), v);
                        },
                    }
                    i = i + 1;
                }
                alloc_array(arena, arr)
            },
            DefaultValue::New(class_name, _args) => {
                let norm = normalize_name(class_name.as_str());
                let class_id = match index_get(&engine_state.class_map, norm.as_str()) {
                    Some(id) => id,
                    None => 0,
                };
                let name = if class_id < engine_state.classes.len() {
                    Some(engine_state.classes[class_id].name.clone())
                } else {
                    None
                };
                let obj = PhpObject { class_id, class_name: name, properties: Vec::new(), destructed: false };
                proof {
                    assert(object_view(obj).2 =~= Seq::<(Seq<char>, PhpValue)>::empty());
                }
                alloc_object(arena, obj)
            },
        }
    }
}

proof fn lemma_eval_items_prefix(
    e: &EngineState,
    items: Seq<(Option<DefaultValue>, DefaultValue)>,
    h: HeapView,
    m: int,
    n: int,
)
    requires
        0 <= m <= n <= items.len(),
        eval_items(e, items, h, n) is Some,
    ensures
        eval_items(e, items, h, m) is Some,
        m > 0 ==> eval_default(e, items[m - 1].1, (eval_items(e, items, h, m - 1)->0).1) is Some,
    decreases n - m,
{
    if m < n {
        lemma_eval_items_prefix(e, items, h, m + 1, n);
    }
}

/// The name a named argument carries: its string, if it is one.
pub open spec fn pair_name(h: HeapView, v: PhpValue) -> Option<Seq<char>> {
    match v {
        PhpValue::Str(i) => Some(h.0[i as int]),
        _ => None,
    }
}

/// The first parameter before `limit` called `name`.
pub open spec fn param_named_from(params: Seq<CompiledParam>, limit: int, name: Seq<char>, i: int) -> Option<int>
    decreases limit - i,
{
    if i < 0 || i >= limit || i >= params.len() {
        None
    } else if params[i].name@ == name {
        Some(i)
    } else {
        param_named_from(params, limit, name, i + 1)
    }
}

/// The first variadic parameter at `i` or later.
pub open spec fn variadic_from(params: Seq<CompiledParam>, i: int) -> Option<int>
    decreases params.len() - i,
{
    if i < 0 || i >= params.len() {
        None
    } else if params[i].is_variadic {
        Some(i)
    } else {
        variadic_from(params, i + 1)
    }
}

/// The first `n` named arguments placed: one naming a parameter before
/// `limit` fills its slot (a later one wins), another goes to the extras
/// with its name (`""` when it is not a string).
pub open spec fn place_named(
    slots: Seq<Option<PhpValue>>,
    params: Seq<CompiledParam>,
    limit: int,
    h: HeapView,
    pairs: Seq<(PhpValue, PhpValue)>,
    n: int,
) -> (Seq<Option<PhpValue>>, Seq<(Seq<char>, PhpValue)>)
    decreases n,
{
    if n <= 0 || n > pairs.len() {
        (slots, seq![])
    } else {
        let prev = place_named(slots, params, limit, h, pairs, n - 1);
        let (nv, v) = pairs[n - 1];
        match pair_name(h, nv) {
            Some(name) => match param_named_from(params, limit, name, 0) {
                Some(p) => (prev.0.update(p, Some(v)), prev.1),
                None => (prev.0, prev.1.push((name, v))),
            },
            None => (prev.0, prev.1.push((seq![], v))),
        }
    }
}

/// The slots holding the first `limit` positional arguments, the rest empty.
pub open spec fn positional_slots(positional: Seq<PhpValue>, limit: int) -> Seq<Option<PhpValue>> {
    Seq::new(limit as nat, |i: int| if i < positional.len() { Some(positional[i]) } else { None })
}

/// The first `n` slots with each empty one filled with its parameter's
/// default, evaluated in order on the heap (`null` without a default).
pub open spec fn fill_defaults(
    e: &EngineState,
    params: Seq<CompiledParam>,
    slots: Seq<Option<PhpValue>>,
    h: HeapView,
    n: int,
) -> Option<(Seq<PhpValue>, HeapView)>
    decreases n,
{
    if n <= 0 || n > slots.len() {
        Some((seq![], h))
    } else {
        match fill_defaults(e, params, slots, h, n - 1) {
            None => None,
            Some((vals, h1)) => match slots[n - 1] {
                Some(v) => Some((vals.push(v), h1)),
                None => if n - 1 < params.len() && params[n - 1].default_value is Some {
                    match eval_default(e, params[n - 1].default_value->0, h1) {
                        Some((v, h2)) => Some((vals.push(v), h2)),
                        None => None,
                    }
                } else {
                    Some((vals.push(PhpValue::Null), h1))
                },
            },
        }
    }
}

/// The variadic array built from the positional arguments past `var_idx`
/// (keys from 0) and then the first `n` unmatched named arguments (under
/// their interned names).
pub open spec fn variadic_array(
    positional: Seq<PhpValue>,
    var_idx: int,
    extra: Seq<(Seq<char>, PhpValue)>,
    h: HeapView,
    n: int,
) -> (ArrayView, HeapView)
    decreases n,
{
    if n <= 0 || n > extra.len() {
        (positional_array(positional, var_idx, positional.len() - var_idx), h)
    } else {
        let (arr, h1) = variadic_array(positional, var_idx, extra, h, n - 1);
        let (id, h2) = intern_in(h1, extra[n - 1].0);
        (array_insert(arr, ArrayKey::StringId(id), extra[n - 1].1), h2)
    }
}

/// The array of the first `n` positional arguments past `var_idx`.
pub open spec fn positional_array(positional: Seq<PhpValue>, var_idx: int, n: int) -> ArrayView
    decreases n,
{
    if n <= 0 {
        (seq![], 0i64)
    } else {
        array_insert(positional_array(positional, var_idx, n - 1), ArrayKey::Int((n - 1) as i64), positional[var_idx + n - 1])
    }
}

/// The values a call binds to the parameters of a function, whether the
/// variadic array was packed, and the heap after: without named arguments
/// (or parameters) the positional ones followed by the named values; with a
/// variadic parameter, the parameters before it filled by position, name or
/// default, then the variadic array; otherwise each parameter filled by
/// position, name or default, then the positional and unmatched named
/// arguments left over.
pub open spec fn bind_result(
    e: &EngineState,
    params: Seq<CompiledParam>,
    positional: Seq<PhpValue>,
    pairs: Seq<(PhpValue, PhpValue)>,
    h: HeapView,
) -> Option<(Seq<PhpValue>, bool, HeapView)> {
    if pairs.len() == 0 || params.len() == 0 {
        Some((positional + pairs.map_values(|p: (PhpValue, PhpValue)| p.1), false, h))
    } else {
        match variadic_from(params, 0) {
            Some(vi) => {
                let (slots, extra) = place_named(positional_slots(positional, vi), params, vi, h, pairs, pairs.len() as int);
                match fill_defaults(e, params, slots, h, vi) {
                    None => None,
                    Some((vals, h1)) => {
                        let (arr, h2) = variadic_array(positional, vi, extra, h1, extra.len() as int);
                        Some((vals.push(PhpValue::Array(h2.1.len() as usize)), true, (h2.0, h2.1.push(arr), h2.2, h2.3)))
                    },
                }
            },
            None => {
                let np = params.len() as int;
                let (slots, extra) = place_named(positional_slots(positional, np), params, np, h, pairs, pairs.len() as int);
                let leftover = (if positional.len() > np { positional.skip(np) } else { seq![] }) + extra.map_values(
                    |x: (Seq<char>, PhpValue)| x.1,
                );
                match fill_defaults(e, params, slots, h, np) {
                    None => None,
                    Some((vals, h1)) => Some((vals + leftover, false, h1)),
                }
            },
        }
    }
}

fn param_named(params: &Vec<CompiledParam>, limit: usize, name: &str) -> (r: Option<usize>)
    requires
        limit <= params@.len(),
    ensures
        match r {
            Some(p) => param_named_from(params@, limit as int, name@, 0) == Some(p as int) && p < limit,
            None => param_named_from(params@, limit as int, name@, 0) is None,
        },
{
    let mut i: usize = 0;
    while i < limit
        invariant
            i <= limit <= params@.len(),
            param_named_from(params@, limit as int, name@, 0) == param_named_from(params@, limit as int, name@, i as int),
        decreases limit - i,
    {
        if str_equal(params[i].name.as_str(), name) {
            return Some(i);
        }
        i = i + 1;
    }
    None
}

pub(crate) fn first_variadic(params: &Vec<CompiledParam>) -> (r: Option<usize>)
    ensures
        match r {
            Some(p) => variadic_from(params@, 0) == Some(p as int) && p < params@.len(),
            None => variadic_from(params@, 0) is None,
        },
{
    let mut i: usize = 0;
    while i < params.len()
        invariant
            i <= params@.len(),
            variadic_from(params@, 0) == variadic_from(params@, i as int),
        decreases params@.len() - i,
    {
        if params[i].is_variadic {
            return Some(i);
        }
        i = i + 1;
    }
    None
}

/// Whether every named argument's name handle points into the arena.
pub open spec fn names_ok(a: &Arena, pairs: Seq<(PhpValue, PhpValue)>) -> bool {
    forall|i: int| 0 <= i < pairs.len() ==> (#[trigger] pairs[i]).0 is Str ==> pairs[i].0->Str_0 < a.strings@.len()
}

fn place_named_exec(
    slots: &mut Vec<Option<PhpValue>>,
    extra: &mut Vec<(String, PhpValue)>,
    params: &Vec<CompiledParam>,
    limit: usize,
    arena: &Arena,
    pairs: &[(PhpValue, PhpValue)],
)
    requires
        limit <= params@.len(),
        old(slots)@.len() == limit,
        old(extra)@.len() == 0,
        names_ok(arena, pairs@),
    ensures
        (final(slots)@, extra_view(final(extra)@)) == place_named(old(slots)@, params@, limit as int, heap(arena), pairs@, pairs@.len() as int),
        final(slots)@.len() == limit,
{
    let ghost s0 = slots@;
    let mut i: usize = 0;
    proof {
        assert(extra_view(extra@) =~= Seq::<(Seq<char>, PhpValue)>::empty());
    }
    while i < pairs.len()
        invariant
            i <= pairs@.len(),
            names_ok(arena, pairs@),
            limit <= params@.len(),
            s0.len() == limit,
            (slots@, extra_view(extra@)) == place_named(s0, params@, limit as int, heap(arena), pairs@, i as int),
            slots@.len() == limit,
        decreases pairs@.len() - i,
    {
        let (nv, v) = pairs[i];
        proof {
            assert(pairs@[i as int].0 is Str ==> pairs@[i as int].0->Str_0 < arena.strings@.len());
        }
        match nv {
            PhpValue::Str(h) => {
                let name = arena.strings[h].as_str();
                assert(pair_name(heap(arena), nv) == Some(name@));
                match param_named(params, limit, name) {
                    Some(p) => {
                        slots.set(p, Some(v));
                    },
                    None => {
                        let ghost before = extra_view(extra@);
                        extra.push((name.to_owned(), v));
                        proof {
                            assert(extra_view(extra@) =~= before.push((name@, v)));
                        }
                    },
                }
            },
            _ => {
                let ghost before = extra_view(extra@);
                extra.push((String::new(), v));
                proof {
                    assert(extra_view(extra@) =~= before.push((seq![], v)));
                }
            },
        }
        i = i + 1;
    }
}

/// Unmatched named arguments as plain values.
pub open spec fn extra_view(x: Seq<(String, PhpValue)>) -> Seq<(Seq<char>, PhpValue)> {
    x.map_values(|e: (String, PhpValue)| (e.0@, e.1))
}

fn fill_defaults_exec(
    e: &EngineState,
    params: &Vec<CompiledParam>,
    slots: &Vec<Option<PhpValue>>,
    arena: &mut Arena,
) -> (r: Vec<PhpValue>)
    requires
        fill_defaults(e, params@, slots@, heap(old(arena)), slots@.len() as int) is Some,
    ensures
        fill_defaults(e, params@, slots@, heap(old(arena)), slots@.len() as int) == Some((r@, heap(final(arena)))),
        final(arena).closures == old(arena).closures,
{
    let mut vals: Vec<PhpValue> = Vec::new();
    let mut i: usize = 0;
    while i < slots.len()
        invariant
            i <= slots@.len(),
            fill_defaults(e, params@, slots@, heap(old(arena)), slots@.len() as int) is Some,
            fill_defaults(e, params@, slots@, heap(old(arena)), i as int) == Some((vals@, heap(arena))),
            arena.closures == old(arena).closures,
        decreases slots@.len() - i,
    {
        proof {
            lemma_fill_defaults_prefix(e, params@, slots@, heap(old(arena)), i as int + 1, slots@.len() as int);
        }
        match slots[i] {
            Some(v) => {
                vals.push(v);
            },
            None => {
                if i < params.len() {
                    match &params[i].default_value {
                        Some(d) => {
                            let v = crate::vm::VM::default_val_to_value(e, d, arena);
                            vals.push(v);
                        },
                        None => {
                            vals.push(PhpValue::Null);
                        },
                    }
                } else {
                    vals.push(PhpValue::Null);
                }
            },
        }
        i = i + 1;
    }
    vals
}

proof fn lemma_fill_defaults_prefix(
    e: &EngineState,
    params: Seq<CompiledParam>,
    slots: Seq<Option<PhpValue>>,
    h: HeapView,
    m: int,
    n: int,
)
    requires
        0 <= m <= n <= slots.len(),
        fill_defaults(e, params, slots, h, n) is Some,
    ensures
        fill_defaults(e, params, slots, h, m) is Some,
    decreases n - m,
{
    if m < n {
        lemma_fill_defaults_prefix(e, params, slots, h, m + 1, n);
    }
}

/// The slots of the first `limit` parameters after placing the positional
/// arguments and then the named ones, with the named arguments left over.
fn named_slots(
    positional: &[PhpValue],
    params: &Vec<CompiledParam>,
    limit: usize,
    arena: &Arena,
    pairs: &[(PhpValue, PhpValue)],
) -> (r: (Vec<Option<PhpValue>>, Vec<(String, PhpValue)>))
    requires
        limit <= params@.len(),
        names_ok(arena, pairs@),
    ensures
        r.0@.len() == limit,
        (r.0@, extra_view(r.1@)) == place_named(
            positional_slots(positional@, limit as int),
            params@,
            limit as int,
            heap(arena),
            pairs@,
            pairs@.len() as int,
        ),
{
    let mut slots: Vec<Option<PhpValue>> = Vec::new();
    let mut i: usize = 0;
    while i < limit
        invariant
            i <= limit,
            slots@ == positional_slots(positional@, limit as int).take(i as int),
        decreases limit - i,
    {
        if i < positional.len() {
            slots.push(Some(positional[i]));
        } else {
            slots.push(None);
        }
        proof {
            assert(slots@ =~= positional_slots(positional@, limit as int).take(i as int + 1));
        }
        i = i + 1;
    }
    proof {
        assert(slots@ =~= positional_slots(positional@, limit as int));
    }
    let mut extra: Vec<(String, PhpValue)> = Vec::new();
    place_named_exec(&mut slots, &mut extra, params, limit, arena, pairs);
    (slots, extra)
}

/// The variadic array of a call (see [`variadic_array`]), interning the
/// names of the unmatched named arguments in the arena.
fn variadic_array_exec(
    positional: &[PhpValue],
    var_idx: usize,
    extra: &Vec<(String, PhpValue)>,
    arena: &mut Arena,
) -> (r: PhpArray)
    ensures
        (r.view(), heap(final(arena))) == variadic_array(
            positional@,
            var_idx as int,
            extra_view(extra@),
            heap(old(arena)),
            extra@.len() as int,
        ),
        final(arena).closures == old(arena).closures,
{
    let mut var_arr = PhpArray::new();
    let mut k: usize = var_idx;
    while k < positional.len()
        invariant
            var_idx <= k,
            k <= positional@.len() || positional@.len() <= var_idx,
            positional@.len() <= var_idx ==> k == var_idx,
            var_arr.view() == positional_array(positional@, var_idx as int, k - var_idx),
        decreases positional@.len() - k,
    {
        #[verifier::truncate]
        let key: i64 = (k - var_idx) as i64;
        var_arr.insert(ArrayKey::Int(key), positional[k]);
        k = k + 1;
    }
    proof {
        if positional@.len() <= var_idx {
            assert(positional_array(positional@, var_idx as int, positional@.len() - var_idx) == positional_array(positional@, var_idx as int, 0));
        }
    }
    let ghost xv = extra_view(extra@);
    let ghost h0 = heap(old(arena));
    let mut m: usize = 0;
    while m < extra.len()
        invariant
            m <= extra@.len(),
            xv == extra_view(extra@),
            h0 == heap(old(arena)),
            (var_arr.view(), heap(arena)) == variadic_array(positional@, var_idx as int, xv, h0, m as int),
            arena.closures == old(arena).closures,
        decreases extra@.len() - m,
    {
        assert(xv[m as int] == (extra@[m as int].0@, extra@[m as int].1));
        let id = intern(arena, extra[m].0.as_str());
        var_arr.insert(ArrayKey::StringId(id), extra[m].1);
        m = m + 1;
    }
    var_arr
}

/// The positional arguments followed by the values of the named ones.
fn concat_arguments(positional: &[PhpValue], pairs: &[(PhpValue, PhpValue)]) -> (r: Vec<PhpValue>)
    ensures
        r@ == positional@ + pairs@.map_values(|p: (PhpValue, PhpValue)| p.1),
{
    let mut res: Vec<PhpValue> = Vec::new();
    let mut i: usize = 0;
    while i < positional.len()
        invariant
            i <= positional@.len(),
            res@ == positional@.take(i as int),
        decreases positional@.len() - i,
    {
        res.push(positional[i]);
        proof {
            assert(positional@.take(i as int + 1) =~= positional@.take(i as int).push(positional@[i as int]));
        }
        i = i + 1;
    }
    let ghost mapped = pairs@.map_values(|p: (PhpValue, PhpValue)| p.1);
    let mut j: usize = 0;
    while j < pairs.len()
        invariant
            j <= pairs@.len(),
            mapped == pairs@.map_values(|p: (PhpValue, PhpValue)| p.1),
            res@ == positional@ + mapped.take(j as int),
        decreases pairs@.len() - j,
    {
        res.push(pairs[j].1);
        proof {
            assert(mapped.take(j as int + 1) =~= mapped.take(j as int).push(mapped[j as int]));
        }
        j = j + 1;
    }
    proof {
        assert(positional@.take(positional@.len() as int) =~= positional@);
        assert(mapped.take(pairs@.len() as int) =~= mapped);
    }
    res
}

/// `vals` followed by the positional arguments past `np` and the values of
/// the unmatched named arguments.
fn push_leftovers(vals: &mut Vec<PhpValue>, positional: &[PhpValue], np: usize, extra: &Vec<(String, PhpValue)>)
    ensures
        final(vals)@ == old(vals)@ + ((if positional@.len() > np { positional@.skip(np as int) } else { seq![] })
            + extra_view(extra@).map_values(|x: (Seq<char>, PhpValue)| x.1)),
{
    let ghost base = vals@;
    let ghost skipped = if positional@.len() > np { positional@.skip(np as int) } else { seq![] };
    let mut k: usize = np;
    while k < positional.len()
        invariant
            np <= k,
            k <= positional@.len() || positional@.len() <= np,
            base == old(vals)@,
            skipped == (if positional@.len() > np { positional@.skip(np as int) } else { seq![] }),
            vals@ == base + (if k <= positional@.len() { positional@.subrange(np as int, k as int) } else { seq![] }),
        decreases positional@.len() - k,
    {
        vals.push(positional[k]);
        proof {
            assert(positional@.subrange(np as int, k as int + 1) =~= positional@.subrange(np as int, k as int).push(positional@[k as int]));
        }
        k = k + 1;
    }
    proof {
        if positional@.len() > np {
            assert(positional@.subrange(np as int, positional@.len() as int) =~= skipped);
        } else if k <= positional@.len() {
            assert(positional@.subrange(np as int, k as int) =~= skipped);
        }
        assert(vals@ =~= base + skipped);
    }
    let ghost xm = extra_view(extra@).map_values(|x: (Seq<char>, PhpValue)| x.1);
    let ghost mid = vals@;
    let mut m: usize = 0;
    while m < extra.len()
        invariant
            m <= extra@.len(),
            xm == extra_view(extra@).map_values(|x: (Seq<char>, PhpValue)| x.1),
            vals@ == mid + xm.take(m as int),
        decreases extra@.len() - m,
    {
        vals.push(extra[m].1);
        proof {
            assert(xm.take(m as int + 1) =~= xm.take(m as int).push(xm[m as int]));
        }
        m = m + 1;
    }
    proof {
        assert(xm.take(extra@.len() as int) =~= xm);
        assert(vals@ =~= base + (skipped + xm));
    }
}

impl crate::vm::VM {
    /// Binds a call's positional and named arguments to a function's
    /// parameters (see [`bind_result`]), evaluating missing defaults in the
    /// arena; the flag says whether a variadic array was packed.
    pub fn bind_call_arguments(
        engine_state: &EngineState,
        func: &PhpFunction,
        positional_args: &[PhpValue],
        named_pairs: &[(PhpValue, PhpValue)],
        arena: &mut Arena,
    ) -> (r: (Vec<PhpValue>, bool))
        requires
            names_ok(old(arena), named_pairs@),
            bind_result(engine_state, func.params@, positional_args@, named_pairs@, heap(old(arena))) is Some,
        ensures
            bind_result(engine_state, func.params@, positional_args@, named_pairs@, heap(old(arena))) == Some(
                (r.0@, r.1, heap(final(arena))),
            ),
    {
        let params = &func.params;
        if named_pairs.len() == 0 || params.len() == 0 {
            let res = concat_arguments(positional_args, named_pairs);
            return (res, false);
        }
        let ghost h0 = heap(arena);
        match first_variadic(params) {
            Some(var_idx) => {
                let (slots, extra) = named_slots(positional_args, params, var_idx, arena, named_pairs);
                assert(fill_defaults(engine_state, params@, slots@, h0, var_idx as int) is Some);
                let mut vals = fill_defaults_exec(engine_state, params, &slots, arena);
                let var_arr = variadic_array_exec(positional_args, var_idx, &extra, arena);
                let arr_val = alloc_array(arena, var_arr);
                vals.push(arr_val);
                (vals, true)
            },
            None => {
                let np = params.len();
                let (slots, extra) = named_slots(positional_args, params, np, arena, named_pairs);
                assert(fill_defaults(engine_state, params@, slots@, h0, np as int) is Some);
                let mut vals = fill_defaults_exec(engine_state, params, &slots, arena);
                push_leftovers(&mut vals, positional_args, np, &extra);
                (vals, false)
            },
        }
    }
}

} // verus!
