use vstd::prelude::*;
use crate::args::{heap, HeapView};
use crate::pad::{deep_copy, heap_extends, lemma_copy_elements_extends, lemma_deep_copy_extends};
use crate::classes::EngineState;
use crate::enums::named_view;
use crate::jit::{lemma_property_from_named, lemma_property_set, with_property};
use crate::throw::property_from;
use crate::fibre::Fibre;
use crate::instance::{inherits, is_path, is_relative_keyword, successors};
use crate::names::normalized;
use crate::value::{Arena, ArrayKey, ArrayView, PhpValue, array_get, array_insert, key_position};
use crate::classes::{FunctionPtr, Visibility};
use crate::access::{accessible, declaring_from, is_sub_from, walk_fuel};
use crate::args::{pair_name, param_named_from, place_named};
use crate::compare::{compare_step, loose_eq, CompareStep, LooseEq, Order};
use crate::function::CompiledParam;
use crate::step::{CompareOp, Opcode, StepAction};
use crate::value::truthy;
use crate::names::{ascii_lower, method_name_hash};
use crate::vm::{
    AutoloadStep, VM, step_is,
    METHOD_CACHE_SIZE, MethodCacheSlot, STATIC_PROP_CACHE_SIZE, StaticPropCacheSlot, empty_method_slot,
    lemma_slot_indices_in_range, method_cached, method_slot_index, static_prop_cached, static_prop_slot_index,
    unset_all,
};

verus! {

/// After a value is stored in the static-property cache under a key,
/// reading that key gives the value back.
pub proof fn static_prop_cache_read_after_write(slots: Seq<StaticPropCacheSlot>, class_hash: u64, prop_hash: u64, val: PhpValue)
    requires
        slots.len() == STATIC_PROP_CACHE_SIZE,
    ensures
        static_prop_cached(
            slots.update(
                static_prop_slot_index(class_hash, prop_hash),
                StaticPropCacheSlot { class_hash, prop_hash, val, is_set: true },
            ),
            class_hash,
            prop_hash,
        ) == Some(val),
{
    lemma_slot_indices_in_range(0, 0, class_hash, prop_hash);
}

/// Storing a value in the static-property cache leaves what every key of
/// another slot reads unchanged.
pub proof fn static_prop_cache_write_keeps_other_slots(
    slots: Seq<StaticPropCacheSlot>,
    class_hash: u64,
    prop_hash: u64,
    val: PhpValue,
    other_class: u64,
    other_prop: u64,
)
    requires
        slots.len() == STATIC_PROP_CACHE_SIZE,
        static_prop_slot_index(other_class, other_prop) != static_prop_slot_index(class_hash, prop_hash),
    ensures
        static_prop_cached(
            slots.update(
                static_prop_slot_index(class_hash, prop_hash),
                StaticPropCacheSlot { class_hash, prop_hash, val, is_set: true },
            ),
            other_class,
            other_prop,
        ) == static_prop_cached(slots, other_class, other_prop),
{
    lemma_slot_indices_in_range(0, 0, class_hash, prop_hash);
    lemma_slot_indices_in_range(0, 0, other_class, other_prop);
}

/// Once the static-property cache is invalidated, no key reads a value.
pub proof fn invalidated_static_prop_cache_is_empty(slots: Seq<StaticPropCacheSlot>, class_hash: u64, prop_hash: u64)
    requires
        slots.len() == STATIC_PROP_CACHE_SIZE,
    ensures
        static_prop_cached(unset_all(slots), class_hash, prop_hash) is None,
{
    lemma_slot_indices_in_range(0, 0, class_hash, prop_hash);
}

/// Every value the static-property cache `slots` reads for a key is the
/// value `stored` holds for it: `stored` being, for each key, the last value
/// stored under it since the cache was last invalidated.
pub open spec fn static_prop_cache_within(slots: Seq<StaticPropCacheSlot>, stored: Map<(u64, u64), PhpValue>) -> bool {
    forall|c: u64, p: u64|
        #[trigger] static_prop_cached(slots, c, p) is Some ==> stored.contains_key((c, p)) && stored[(c, p)]
            == static_prop_cached(slots, c, p)->Some_0
}

/// An invalidated static-property cache holds nothing that was not stored
/// since: it reads no value at all.
pub proof fn invalidated_static_prop_cache_within(slots: Seq<StaticPropCacheSlot>)
    requires
        slots.len() == STATIC_PROP_CACHE_SIZE,
    ensures
        static_prop_cache_within(unset_all(slots), Map::empty()),
{
    assert forall|c: u64, p: u64| #[trigger] static_prop_cached(unset_all(slots), c, p) is Some implies false by {
        lemma_slot_indices_in_range(0, 0, c, p);
    }
}

/// Storing `val` under `(class_hash, prop_hash)` keeps every read of the
/// cache a value stored since the last invalidation, the last one stored
/// under its key: so a read of the cache gives `Some(v)` only where `v` was
/// the last value stored under that very key since the cache was
/// invalidated, never a value stored under another key.
pub proof fn static_prop_store_stays_within(
    slots: Seq<StaticPropCacheSlot>,
    stored: Map<(u64, u64), PhpValue>,
    class_hash: u64,
    prop_hash: u64,
    val: PhpValue,
)
    requires
        slots.len() == STATIC_PROP_CACHE_SIZE,
        static_prop_cache_within(slots, stored),
    ensures
        static_prop_cache_within(
            slots.update(
                static_prop_slot_index(class_hash, prop_hash),
                StaticPropCacheSlot { class_hash, prop_hash, val, is_set: true },
            ),
            stored.insert((class_hash, prop_hash), val),
        ),
{
    let after = slots.update(
        static_prop_slot_index(class_hash, prop_hash),
        StaticPropCacheSlot { class_hash, prop_hash, val, is_set: true },
    );
    assert forall|c: u64, p: u64| #[trigger] static_prop_cached(after, c, p) is Some implies stored.insert(
        (class_hash, prop_hash),
        val,
    ).contains_key((c, p)) && stored.insert((class_hash, prop_hash), val)[(c, p)] == static_prop_cached(after, c, p)->Some_0 by {
        lemma_slot_indices_in_range(0, 0, c, p);
        lemma_slot_indices_in_range(0, 0, class_hash, prop_hash);
        if static_prop_slot_index(c, p) != static_prop_slot_index(class_hash, prop_hash) {
            assert(static_prop_cached(after, c, p) == static_prop_cached(slots, c, p));
            assert(static_prop_cached(slots, c, p) is Some);
            assert((c, p) != (class_hash, prop_hash));
        }
    }
}

/// After a method is filed in the method cache, probing the same class and
/// name hash finds it.
pub proof fn method_cache_probe_after_record(slots: Seq<MethodCacheSlot>, class_id: usize, name_hash: u64, f: crate::classes::FunctionPtr)
    requires
        slots.len() == METHOD_CACHE_SIZE,
    ensures
        method_cached(
            slots.update(
                method_slot_index(class_id, name_hash),
                MethodCacheSlot { class_id, name_hash, func_ptr: Some(f) },
            ),
            class_id,
            name_hash,
        ) == Some(f),
{
    lemma_slot_indices_in_range(class_id, name_hash, 0, 0);
}

/// An emptied method cache finds nothing.
pub proof fn emptied_method_cache_misses(slots: Seq<MethodCacheSlot>, class_id: usize, name_hash: u64)
    requires
        slots.len() == METHOD_CACHE_SIZE,
        forall|i: int| 0 <= i < METHOD_CACHE_SIZE ==> slots[i] == empty_method_slot(),
    ensures
        method_cached(slots, class_id, name_hash) is None,
{
    lemma_slot_indices_in_range(class_id, name_hash, 0, 0);
}

proof fn lemma_key_position(els: Seq<(ArrayKey, PhpValue)>, key: ArrayKey)
    ensures
        match key_position(els, key) {
            Some(i) => 0 <= i < els.len() && els[i].0 == key && forall|j: int| 0 <= j < i ==> els[j].0 != key,
            None => forall|j: int| 0 <= j < els.len() ==> els[j].0 != key,
        },
    decreases els.len(),
{
    if els.len() > 0 {
        lemma_key_position(els.drop_last(), key);
        assert forall|j: int| 0 <= j < els.len() - 1 implies els[j] == els.drop_last()[j] by {}
    }
}

proof fn lemma_key_position_first(els: Seq<(ArrayKey, PhpValue)>, key: ArrayKey, i: int)
    requires
        0 <= i < els.len(),
        els[i].0 == key,
        forall|j: int| 0 <= j < i ==> els[j].0 != key,
    ensures
        key_position(els, key) == Some(i),
{
    lemma_key_position(els, key);
}

/// Storing a value in an array under a key and then reading that key gives
/// the value back, and every other key reads what it read before.
pub proof fn array_read_after_insert(a: ArrayView, key: ArrayKey, v: PhpValue, other: ArrayKey)
    ensures
        array_get(array_insert(a, key, v), key) == Some(v),
        other != key ==> array_get(array_insert(a, key, v), other) == array_get(a, other),
{
    let els = a.0;
    let b = array_insert(a, key, v).0;
    lemma_key_position(els, key);
    lemma_key_position(els, other);
    match key_position(els, key) {
        Some(i) => {
            assert(b == els.update(i, (key, v)));
            lemma_key_position_first(b, key, i);
            if other != key {
                match key_position(els, other) {
                    Some(k) => {
                        lemma_key_position_first(b, other, k);
                    },
                    None => {
                        lemma_key_position(b, other);
                    },
                }
            }
        },
        None => {
            assert(b == els.push((key, v)));
            lemma_key_position_first(b, key, els.len() as int);
            if other != key {
                match key_position(els, other) {
                    Some(k) => {
                        lemma_key_position_first(b, other, k);
                    },
                    None => {
                        lemma_key_position(b, other);
                    },
                }
            }
        },
    }
}

/// Every class is an instance of itself.
pub proof fn inherits_is_reflexive(e: &EngineState, name: Seq<char>)
    ensures
        inherits(e, name, name),
{
    let p = seq![name];
    assert(is_path(e, p) && p[0] == name && p.last() == name);
}

/// A class that inherits from one that inherits from a third inherits
/// from the third.
pub proof fn inherits_is_transitive(e: &EngineState, a: Seq<char>, b: Seq<char>, c: Seq<char>)
    requires
        inherits(e, a, b),
        inherits(e, b, c),
    ensures
        inherits(e, a, c),
{
    let p = choose|p: Seq<Seq<char>>| #[trigger] is_path(e, p) && p[0] == a && p.last() == b;
    let q = choose|q: Seq<Seq<char>>| #[trigger] is_path(e, q) && q[0] == b && q.last() == c;
    let r = p + q.skip(1);
    assert forall|i: int| 0 <= i < r.len() - 1 implies #[trigger] successors(e, r[i]).contains(r[i + 1]) by {
        if i < p.len() - 1 {
            assert(r[i] == p[i] && r[i + 1] == p[i + 1]);
        } else if i == p.len() - 1 {
            assert(r[i] == p.last() && r[i + 1] == q[1]);
            assert(q[0] == b);
            assert(successors(e, q[0int]).contains(q[0int + 1]));
        } else {
            let k = i - p.len() + 1;
            assert(r[i] == q[k] && r[i + 1] == q[k + 1]);
        }
    }
    if q.len() == 1 {
        assert(r =~= p);
    } else {
        assert(r.last() == q.last());
    }
    assert(is_path(e, r) && r[0] == a && r.last() == c);
}

/// An object whose class carries its name is an instance of that class,
/// however the name is cased or prefixed with `\`.
pub proof fn object_is_instance_of_own_class(f: &Fibre, h: usize, target: Seq<char>)
    requires
        f.arena.objects@[h as int].class_name matches Some(n) && normalized(n@) == normalized(target),
        !is_relative_keyword(target),
    ensures
        f.instance_of(PhpValue::Object(h), target),
{
    let n = f.arena.objects@[h as int].class_name->0;
    inherits_is_reflexive(&f.engine_state, normalized(n@));
}

/// Popping right after pushing gives the pushed value back and leaves the
/// values in use as they were.
pub proof fn pop_undoes_push(before: Seq<PhpValue>, v: PhpValue, pushed: Seq<PhpValue>, popped: PhpValue, after: Seq<PhpValue>)
    requires
        pushed == before.push(v),
        popped == pushed.last(),
        after == pushed.drop_last(),
    ensures
        popped == v,
        after == before,
{
    assert(after =~= before);
}

/// `tryFrom` finds the very case `from` finds, and where `from` fails with
/// a `ValueError`, `tryFrom` gives `null`; on a class that is no enum
/// neither is built in.
pub proof fn try_from_agrees_with_from(
    f: Fibre,
    class_id: usize,
    args: Seq<PhpValue>,
    from_r: Option<Result<PhpValue, String>>,
    from_after: Fibre,
    try_r: Option<Result<PhpValue, String>>,
    try_after: Fibre,
)
    requires
        f.enum_builtin_done(class_id, "from"@, args, from_r, from_after),
        f.enum_builtin_done(class_id, "tryfrom"@, args, try_r, try_after),
    ensures
        from_r is None <==> try_r is None,
        from_r matches Some(Ok(v)) ==> try_r == Some(Ok::<PhpValue, String>(v)),
        from_r matches Some(Err(_)) ==> try_r == Some(Ok::<PhpValue, String>(PhpValue::Null)),
        from_after == f,
        try_after == f,
{
    reveal_strlit("from");
    reveal_strlit("tryfrom");
    reveal_strlit("cases");
    assert("from"@.len() == 4 && "tryfrom"@.len() == 7 && "cases"@.len() == 5);
}

/// A property that compiled code sets on an object reads back as the value
/// set, and every other property of the object reads as before.
pub proof fn object_property_read_after_write(
    before: Arena,
    after: Arena,
    o: usize,
    name: Seq<char>,
    v: PhpValue,
    other: Seq<char>,
)
    requires
        o < before.objects@.len(),
        heap(&after) == ({
            let h = heap(&before);
            (h.0, h.1, h.2.update(o as int, with_property(h.2[o as int], name, v)), h.3)
        }),
    ensures
        property_from(after.objects@[o as int].properties@, name, 0) == Some(v),
        other != name ==> property_from(after.objects@[o as int].properties@, other, 0) == property_from(
            before.objects@[o as int].properties@,
            other,
            0,
        ),
{
    let pb = before.objects@[o as int].properties@;
    let pa = after.objects@[o as int].properties@;
    assert(heap(&before).2[o as int].2 =~= named_view(pb));
    assert(heap(&after).2.len() == after.objects@.len());
    assert(heap(&after).2[o as int].2 =~= named_view(pa));
    lemma_property_from_named(pb, name, 0);
    lemma_property_from_named(pb, other, 0);
    lemma_property_from_named(pa, name, 0);
    lemma_property_from_named(pa, other, 0);
    lemma_property_set(named_view(pb), name, v, other);
}

/// Copying a value the way PHP passes arrays by value leaves what the heap
/// held untouched, so changing the copy never changes what it was copied
/// from: an array of the heap (above the depth limit) comes back as a new
/// array after all the existing ones, and any other value, an object among
/// them, comes back as it is with the heap unchanged.
pub proof fn deep_copy_keeps_the_heap(h: HeapView, v: PhpValue, depth: int)
    ensures
        heap_extends(h, deep_copy(h, v, depth).1),
        !(v is Array) ==> deep_copy(h, v, depth) == (v, h),
        (v matches PhpValue::Array(a) && (a as int) < h.1.len() && 0 <= depth <= 32) ==> {
            let (c, h3) = deep_copy(h, v, depth);
            &&& h3.1.len() > h.1.len()
            &&& c == PhpValue::Array((h3.1.len() - 1) as usize)
        },
{
    lemma_deep_copy_extends(h, v, depth);
    if let PhpValue::Array(a) = v {
        if (a as int) < h.1.len() && 0 <= depth <= 32 {
            let els = h.1[a as int].0;
            lemma_copy_elements_extends(h, els, depth, els.len() as int);
        }
    }
}

/// Every hit of the direct-mapped method cache for a name of `names` is
/// what a fresh lookup on `e` gives.
pub open spec fn slots_agree(vm: &VM, e: &EngineState, names: Set<Seq<char>>) -> bool {
    forall|cid: usize, n: Seq<char>|
        #![trigger method_cached(vm.method_cache@, cid, method_name_hash(n)), names.contains(n)]
        names.contains(n) && method_cached(vm.method_cache@, cid, method_name_hash(n)) is Some ==> e.method_lookup(
            cid as int,
            n,
        ) == Some(Ok::<Option<FunctionPtr>, Seq<char>>(method_cached(vm.method_cache@, cid, method_name_hash(n))))
}

/// Every result the name-keyed method cache holds for a name of `names` is
/// what a fresh lookup on `e` gives.
pub open spec fn l1_agrees(vm: &VM, e: &EngineState, names: Set<Seq<char>>) -> bool {
    forall|cid: usize, n: Seq<char>|
        #![trigger vm.method_l1.lookup(cid, ascii_lower(n)), names.contains(n)]
        names.contains(n) && vm.method_l1.lookup(cid, ascii_lower(n)) is Some ==> e.method_lookup(cid as int, n) == Some(
            Ok::<Option<FunctionPtr>, Seq<char>>(vm.method_l1.lookup(cid, ascii_lower(n))->Some_0),
        )
}

/// The method caches agree with the engine `e` on the method names in
/// `names` (see [`slots_agree`] and [`l1_agrees`]).
pub open spec fn caches_agree(vm: &VM, e: &EngineState, names: Set<Seq<char>>) -> bool {
    slots_agree(vm, e, names) && l1_agrees(vm, e, names)
}

/// The names of `names` that the caches cannot tell apart (the same hash,
/// or the same name but for ASCII case) resolve alike on `e`.
pub open spec fn names_resolve_alike(e: &EngineState, names: Set<Seq<char>>) -> bool {
    forall|cid: usize, n1: Seq<char>, n2: Seq<char>|
        #![trigger names.contains(n1), names.contains(n2), e.method_lookup(cid as int, n1), e.method_lookup(cid as int, n2)]
        names.contains(n1) && names.contains(n2) && (method_name_hash(n1) == method_name_hash(n2) || ascii_lower(n1)
            == ascii_lower(n2)) ==> e.method_lookup(cid as int, n1) == e.method_lookup(cid as int, n2)
}

/// Emptied caches (as [`VM::invalidate_method_cache`] leaves them) agree
/// with every engine state on every name.
pub proof fn invalidated_caches_agree(vm: &VM, e: &EngineState, names: Set<Seq<char>>)
    requires
        vm.wf(),
        forall|i: int| 0 <= i < METHOD_CACHE_SIZE ==> vm.method_cache@[i] == empty_method_slot(),
        forall|id: usize, key: Seq<char>| vm.method_l1.lookup(id, key) is None,
    ensures
        caches_agree(vm, e, names),
{
    assert forall|cid: usize, n: Seq<char>|
        names.contains(n) && method_cached(vm.method_cache@, cid, method_name_hash(n)) is Some implies false by {
        lemma_slot_indices_in_range(cid, method_name_hash(n), 0, 0);
    }
}

proof fn lemma_resolution_is_fresh(vm: VM, e: &EngineState, names: Set<Seq<char>>, class_id: usize, name: Seq<char>)
    requires
        l1_agrees(&vm, e, names),
        names.contains(name),
    ensures
        vm.resolution(e, class_id, name) is Some ==> vm.resolution(e, class_id, name) == e.method_lookup(
            class_id as int,
            name,
        ),
        vm.resolution(e, class_id, name) is None ==> e.method_lookup(class_id as int, name) is None,
{
    reveal(VM::resolution);
    if vm.method_l1.lookup(class_id, ascii_lower(name)) is Some {
        assert(names.contains(name));
    }
}

proof fn lemma_l1_still_agrees(before: VM, after: VM, e: &EngineState, names: Set<Seq<char>>, class_id: usize, name: Seq<char>)
    requires
        l1_agrees(&before, e, names),
        names_resolve_alike(e, names),
        names.contains(name),
        before.l1_refreshed(e, class_id, name, after),
    ensures
        l1_agrees(&after, e, names),
{
    lemma_resolution_is_fresh(before, e, names, class_id, name);
    assert forall|cid: usize, n: Seq<char>|
        names.contains(n) && after.method_l1.lookup(cid, ascii_lower(n)) is Some implies e.method_lookup(cid as int, n)
            == Some(Ok::<Option<FunctionPtr>, Seq<char>>(after.method_l1.lookup(cid, ascii_lower(n))->Some_0)) by {
        if cid == class_id && ascii_lower(n) == ascii_lower(name) {
            assert(names.contains(name));
            assert(e.method_lookup(cid as int, n) == e.method_lookup(cid as int, name));
        } else {
            assert(after.method_l1.lookup(cid, ascii_lower(n)) == before.method_l1.lookup(cid, ascii_lower(n)));
        }
    }
}

proof fn lemma_slots_still_agree(
    before: VM,
    after: VM,
    e: &EngineState,
    names: Set<Seq<char>>,
    class_id: usize,
    name: Seq<char>,
    r: AutoloadStep,
)
    requires
        before.wf(),
        slots_agree(&before, e, names),
        l1_agrees(&before, e, names),
        names_resolve_alike(e, names),
        names.contains(name),
        before.slots_refreshed(e, class_id, name, r, after),
    ensures
        slots_agree(&after, e, names),
{
    lemma_resolution_is_fresh(before, e, names, class_id, name);
    let h = method_name_hash(name);
    assert forall|cid: usize, n: Seq<char>|
        names.contains(n) && method_cached(after.method_cache@, cid, method_name_hash(n)) is Some implies e.method_lookup(
            cid as int,
            n,
        ) == Some(Ok::<Option<FunctionPtr>, Seq<char>>(method_cached(after.method_cache@, cid, method_name_hash(n)))) by {
        lemma_slot_indices_in_range(cid, method_name_hash(n), 0, 0);
        lemma_slot_indices_in_range(class_id, h, 0, 0);
        let i = method_slot_index(cid, method_name_hash(n));
        if after.method_cache == before.method_cache {
            assert(method_cached(before.method_cache@, cid, method_name_hash(n)) is Some);
        } else if i == method_slot_index(class_id, h) {
            let f = r->Done_0->Some_0;
            assert(after.method_cache@[i] == MethodCacheSlot { class_id, name_hash: h, func_ptr: Some(f) });
            assert(cid == class_id && method_name_hash(n) == h);
            assert(method_cached(after.method_cache@, cid, method_name_hash(n)) == Some(f));
            assert(names.contains(name));
            assert(e.method_lookup(cid as int, n) == e.method_lookup(cid as int, name));
        } else {
            assert(after.method_cache@[i] == before.method_cache@[i]);
            assert(method_cached(after.method_cache@, cid, method_name_hash(n)) == method_cached(
                before.method_cache@,
                cid,
                method_name_hash(n),
            ));
            assert(method_cached(before.method_cache@, cid, method_name_hash(n)) is Some);
        }
    }
}

/// With the caches in agreement, a fast method lookup
/// ([`VM::find_method_fast`]) from `class_id` for a name of `names` gives
/// what a fresh lookup on the engine gives, a hit included: a method it
/// returns is the method the engine's lookup finds; `None` is the engine's
/// `None`, a missing parent after ten loads, or an ancestry that loops; a
/// parent to load is the engine's missing parent. And the caches stay in agreement. So, with the
/// engine unchanged since the caches were emptied, every result of the
/// fast lookup is the fresh lookup's.
pub proof fn fast_lookup_is_fresh(
    before: VM,
    after: VM,
    e: &EngineState,
    names: Set<Seq<char>>,
    class_id: usize,
    name: Seq<char>,
    attempts: usize,
    r: AutoloadStep,
)
    requires
        before.wf(),
        caches_agree(&before, e, names),
        names_resolve_alike(e, names),
        names.contains(name),
        match method_cached(before.method_cache@, class_id, method_name_hash(name)) {
            Some(f) => r == AutoloadStep::Done(Some(f)),
            None => step_is(r, before.lookup_step(e, class_id, name, attempts, None)),
        },
        before.l1_refreshed(e, class_id, name, after),
        before.slots_refreshed(e, class_id, name, r, after),
    ensures
        caches_agree(&after, e, names),
        r matches AutoloadStep::Done(Some(f)) ==> e.method_lookup(class_id as int, name) == Some(
            Ok::<Option<FunctionPtr>, Seq<char>>(Some(f)),
        ),
        r matches AutoloadStep::Done(None) ==> e.method_lookup(class_id as int, name) == Some(
            Ok::<Option<FunctionPtr>, Seq<char>>(None),
        ) || (attempts >= 10 && e.method_lookup(class_id as int, name) matches Some(Err(_)))
            || e.method_lookup(class_id as int, name) is None,
        r matches AutoloadStep::LoadParent(p) ==> e.method_lookup(class_id as int, name) == Some(
            Err::<Option<FunctionPtr>, Seq<char>>(p@),
        ),
{
    lemma_l1_still_agrees(before, after, e, names, class_id, name);
    lemma_slots_still_agree(before, after, e, names, class_id, name, r);
    lemma_resolution_is_fresh(before, e, names, class_id, name);
    if method_cached(before.method_cache@, class_id, method_name_hash(name)) is Some {
        assert(names.contains(name));
        assert(slots_agree(&before, e, names));
    }
}

/// A failed lookup is never cached: when [`VM::find_method`] reports a
/// missing parent it leaves the name-keyed cache as it was, so with no
/// entry there before, the next lookup of the same name, on whatever engine
/// state it then runs (say, once the parent was declared), walks the
/// engine afresh.
pub proof fn failed_lookup_is_not_cached(
    before: VM,
    after: VM,
    e2: &EngineState,
    class_id: usize,
    name: Seq<char>,
)
    requires
        after.method_l1 == before.method_l1,
        before.method_l1.lookup(class_id, ascii_lower(name)) is None,
    ensures
        after.resolution(e2, class_id, name) == e2.method_lookup(class_id as int, name),
{
    reveal(VM::resolution);
}

/// Loose equality never settles two distinct objects without looking at
/// them: they are compared member by member (so two objects of one class
/// with loosely equal properties can be equal); an object equals itself.
pub proof fn distinct_objects_compare_by_members(a: &Arena, p: usize, q: usize)
    ensures
        p != q ==> loose_eq(a, PhpValue::Object(p), PhpValue::Object(q)) == LooseEq::Members,
        loose_eq(a, PhpValue::Object(p), PhpValue::Object(p)) == LooseEq::Known(true),
{
}

/// Loose equality is symmetric: `x == y` is decided as `y == x` is.
pub proof fn loose_equality_is_symmetric(a: &Arena, x: PhpValue, y: PhpValue)
    ensures
        loose_eq(a, x, y) == loose_eq(a, y, x),
{
}

/// Two integers order as numbers: `i < j` exactly when `i` is less, equal
/// exactly when they are the same number, greater exactly when `i > j`; so
/// every integer compares equal to itself.
pub proof fn integers_order_as_numbers(a: &Arena, i: i32, j: i32)
    ensures
        (compare_step(a, PhpValue::Int(i), PhpValue::Int(j)) == CompareStep::Known(Order::Less)) <==> i < j,
        (compare_step(a, PhpValue::Int(i), PhpValue::Int(j)) == CompareStep::Known(Order::Equal)) <==> i == j,
        (compare_step(a, PhpValue::Int(i), PhpValue::Int(j)) == CompareStep::Known(Order::Greater)) <==> i > j,
{
}

/// The ordering is antisymmetric: `x` is less than `y` exactly when `y` is
/// greater than `x`, and equal exactly when `y` is equal to `x`.
pub proof fn ordering_is_antisymmetric(a: &Arena, x: PhpValue, y: PhpValue)
    ensures
        (compare_step(a, x, y) == CompareStep::Known(Order::Less)) <==> (compare_step(a, y, x) == CompareStep::Known(
            Order::Greater,
        )),
        (compare_step(a, x, y) == CompareStep::Known(Order::Equal)) <==> (compare_step(a, y, x) == CompareStep::Known(
            Order::Equal,
        )),
{
}

proof fn lemma_param_named_from(params: Seq<CompiledParam>, limit: int, name: Seq<char>, i: int)
    requires
        0 <= i,
    ensures
        match param_named_from(params, limit, name, i) {
            Some(k) => {
                &&& i <= k < limit
                &&& k < params.len()
                &&& params[k].name@ == name
                &&& forall|j: int| i <= j < k ==> #[trigger] params[j].name@ != name
            },
            None => forall|j: int| i <= j < limit && j < params.len() ==> #[trigger] params[j].name@ != name,
        },
    decreases limit - i,
{
    if i < limit && i < params.len() && params[i].name@ != name {
        lemma_param_named_from(params, limit, name, i + 1);
    }
}

/// A named argument goes to the first parameter before `limit` that bears
/// its name, whatever its position (the first included); when no
/// parameter before `limit` bears it, to none.
pub proof fn named_argument_finds_first_parameter(params: Seq<CompiledParam>, limit: int, name: Seq<char>)
    ensures
        match param_named_from(params, limit, name, 0) {
            Some(k) => {
                &&& 0 <= k < limit
                &&& k < params.len()
                &&& params[k].name@ == name
                &&& forall|j: int| 0 <= j < k ==> #[trigger] params[j].name@ != name
            },
            None => forall|j: int| 0 <= j < limit && j < params.len() ==> #[trigger] params[j].name@ != name,
        },
        limit > 0 && params.len() > 0 && params[0].name@ == name ==> param_named_from(params, limit, name, 0) == Some(
            0int,
        ),
{
    lemma_param_named_from(params, limit, name, 0);
}

/// A public method is callable from anywhere. A method that is not public
/// is refused to code outside any class (a frame with class 0) and to a
/// frame that does not exist; it is granted only to a caller whose class is
/// not 0 and is the declaring or the target class or related to one of
/// them by descent, and refused to an unrelated caller.
pub proof fn non_public_methods_need_a_related_caller(f: &Fibre, target: usize, func: FunctionPtr, caller: usize)
    ensures
        f.engine_state.functions@[func.0 as int].visibility == Visibility::Public ==> accessible(f, target, func, caller)
            == Some(true),
        f.engine_state.functions@[func.0 as int].visibility != Visibility::Public && (caller >= f.frame_count
            || f.frames@[caller as int].called_class_id == 0) ==> accessible(f, target, func, caller) == Some(false),
        f.engine_state.functions@[func.0 as int].visibility != Visibility::Public && accessible(f, target, func, caller)
            == Some(true) ==> {
            let c = f.frames@[caller as int].called_class_id as int;
            let e = &f.engine_state;
            let d = match declaring_from(e, target as int, func, walk_fuel(e)) {
                Some(Some(id)) => id,
                _ => target as int,
            };
            &&& caller < f.frame_count
            &&& c != 0
            &&& (c == d || c == target || is_sub_from(e, c, d, walk_fuel(e)) == Some(true) || is_sub_from(
                e,
                d,
                c,
                walk_fuel(e),
            ) == Some(true) || is_sub_from(e, c, target as int, walk_fuel(e)) == Some(true) || is_sub_from(
                e,
                target as int,
                c,
                walk_fuel(e),
            ) == Some(true))
        },
{
}

/// `LogicalAnd` pops two values and pushes their conjunction: `false`
/// when either is false, `true` when both are true.
pub proof fn logical_and_is_a_conjunction(f: Fibre, after: Fibre, r: StepAction)
    requires
        f.can_step(Opcode::LogicalAnd),
        f.stepped(Opcode::LogicalAnd, after, r),
    ensures
        r == StepAction::Continue,
        after.stack_top == f.stack_top - 1,
        !truthy(&f.arena, f.below_top(1)) ==> after.stack@[f.stack_top - 2] == PhpValue::Bool(false),
        !truthy(&f.arena, f.below_top(0)) ==> after.stack@[f.stack_top - 2] == PhpValue::Bool(false),
        truthy(&f.arena, f.below_top(1)) && truthy(&f.arena, f.below_top(0)) ==> after.stack@[f.stack_top - 2]
            == PhpValue::Bool(true),
{
}

/// `LogicalOr` pops two values and pushes their disjunction: `true` when
/// either is true, `false` when both are false.
pub proof fn logical_or_is_a_disjunction(f: Fibre, after: Fibre, r: StepAction)
    requires
        f.can_step(Opcode::LogicalOr),
        f.stepped(Opcode::LogicalOr, after, r),
    ensures
        r == StepAction::Continue,
        after.stack_top == f.stack_top - 1,
        truthy(&f.arena, f.below_top(1)) ==> after.stack@[f.stack_top - 2] == PhpValue::Bool(true),
        truthy(&f.arena, f.below_top(0)) ==> after.stack@[f.stack_top - 2] == PhpValue::Bool(true),
        !truthy(&f.arena, f.below_top(1)) && !truthy(&f.arena, f.below_top(0)) ==> after.stack@[f.stack_top - 2]
            == PhpValue::Bool(false),
{
}

/// With exactly one of two operands true, `LogicalAnd` and `LogicalOr`
/// push different answers: the conjunction false, the disjunction true.
pub proof fn conjunction_and_disjunction_differ(f: Fibre, and_after: Fibre, r1: StepAction, or_after: Fibre, r2: StepAction)
    requires
        f.can_step(Opcode::LogicalAnd),
        f.stepped(Opcode::LogicalAnd, and_after, r1),
        f.stepped(Opcode::LogicalOr, or_after, r2),
        truthy(&f.arena, f.below_top(1)) != truthy(&f.arena, f.below_top(0)),
    ensures
        and_after.stack@[f.stack_top - 2] == PhpValue::Bool(false),
        or_after.stack@[f.stack_top - 2] == PhpValue::Bool(true),
{
}

/// Two integers are loosely equal exactly when they are the same number.
pub proof fn integers_are_equal_as_numbers(a: &Arena, i: i32, j: i32)
    ensures
        loose_eq(a, PhpValue::Int(i), PhpValue::Int(j)) == LooseEq::Known(i == j),
{
}

/// A boolean is loosely equal to a value exactly when the value's truth is
/// that boolean, on either side.
pub proof fn booleans_compare_by_truth(a: &Arena, b: bool, y: PhpValue)
    ensures
        loose_eq(a, PhpValue::Bool(b), y) == LooseEq::Known(b == truthy(a, y)),
        loose_eq(a, y, PhpValue::Bool(b)) == LooseEq::Known(b == truthy(a, y)),
{
}

/// An array ranks above any value that is not an array, and equals itself.
pub proof fn arrays_rank_above_other_values(a: &Arena, h: usize, y: PhpValue)
    ensures
        !(y is Array) ==> compare_step(a, PhpValue::Array(h), y) == CompareStep::Known(Order::Greater),
        !(y is Array) ==> compare_step(a, y, PhpValue::Array(h)) == CompareStep::Known(Order::Less),
        compare_step(a, PhpValue::Array(h), PhpValue::Array(h)) == CompareStep::Known(Order::Equal),
{
}

/// Booleans order `false` before `true`.
pub proof fn false_orders_before_true(a: &Arena, p: bool, q: bool)
    ensures
        (compare_step(a, PhpValue::Bool(p), PhpValue::Bool(q)) == CompareStep::Known(Order::Less)) <==> (!p && q),
        (compare_step(a, PhpValue::Bool(p), PhpValue::Bool(q)) == CompareStep::Known(Order::Equal)) <==> (p == q),
{
}

/// A comparison instruction on two integers pushes what the operator says
/// of the two numbers, the first pushed on the left.
pub proof fn integer_comparisons_step_as_numbers(f: Fibre, c: CompareOp, after: Fibre, r: StepAction, i: i32, j: i32)
    requires
        f.can_step(Opcode::Compare(c)),
        f.stepped(Opcode::Compare(c), after, r),
        f.below_top(1) == PhpValue::Int(i),
        f.below_top(0) == PhpValue::Int(j),
    ensures
        r == StepAction::Continue,
        after.stack_top == f.stack_top - 1,
        c == CompareOp::Equal ==> after.stack@[f.stack_top - 2] == PhpValue::Bool(i == j),
        c == CompareOp::NotEqual ==> after.stack@[f.stack_top - 2] == PhpValue::Bool(i != j),
        c == CompareOp::Less ==> after.stack@[f.stack_top - 2] == PhpValue::Bool(i < j),
        c == CompareOp::Greater ==> after.stack@[f.stack_top - 2] == PhpValue::Bool(i > j),
        c == CompareOp::LessOrEqual ==> after.stack@[f.stack_top - 2] == PhpValue::Bool(i <= j),
        c == CompareOp::GreaterOrEqual ==> after.stack@[f.stack_top - 2] == PhpValue::Bool(i >= j),
{
}

/// A single named argument that names the first parameter fills the first
/// slot with its value.
pub proof fn named_argument_fills_its_parameter(
    slots: Seq<Option<PhpValue>>,
    params: Seq<CompiledParam>,
    limit: int,
    h: HeapView,
    nv: PhpValue,
    v: PhpValue,
    k: int,
)
    requires
        0 <= k < limit,
        k < params.len(),
        k < slots.len(),
        pair_name(h, nv) == Some(params[k].name@),
        forall|j: int| 0 <= j < k ==> #[trigger] params[j].name@ != params[k].name@,
    ensures
        place_named(slots, params, limit, h, seq![(nv, v)], 1).0[k] == Some(v),
        place_named(slots, params, limit, h, seq![(nv, v)], 1).1.len() == 0,
{
    named_argument_finds_first_parameter(params, limit, params[k].name@);
    let r = param_named_from(params, limit, params[k].name@, 0);
    assert(r == Some(k)) by {
        if r != Some(k) {
            match r {
                Some(m) => {
                    if m < k {
                    } else {
                        assert(params[k].name@ != params[k].name@);
                    }
                },
                None => {
                    assert(params[k].name@ != params[k].name@);
                },
            }
        }
    }
    assert(place_named(slots, params, limit, h, seq![(nv, v)], 0) == (slots, Seq::<(Seq<char>, PhpValue)>::empty()));
}

/// `null` is loosely equal to a value that is no float exactly when the
/// value is falsy, on either side.
pub proof fn null_equals_exactly_the_falsy_values(a: &Arena, y: PhpValue)
    requires
        !(y is Float),
    ensures
        loose_eq(a, PhpValue::Null, y) == LooseEq::Known(!truthy(a, y)),
        loose_eq(a, y, PhpValue::Null) == LooseEq::Known(!truthy(a, y)),
{
}

/// A method that is not public is granted to a caller frame whose class
/// (not 0) is the target class or the class that declares the method, and
/// refused to a caller whose class is neither and is related to neither by
/// descent.
pub proof fn non_public_methods_are_granted_to_their_classes(f: &Fibre, target: usize, func: FunctionPtr, caller: usize)
    requires
        f.engine_state.functions@[func.0 as int].visibility != Visibility::Public,
        caller < f.frame_count,
        f.frames@[caller as int].called_class_id != 0,
        declaring_from(&f.engine_state, target as int, func, walk_fuel(&f.engine_state)) is Some,
    ensures
        ({
            let c = f.frames@[caller as int].called_class_id as int;
            let e = &f.engine_state;
            let d = match declaring_from(e, target as int, func, walk_fuel(e)) {
                Some(Some(id)) => id,
                _ => target as int,
            };
            &&& (c == d || c == target) ==> accessible(f, target, func, caller) == Some(true)
            &&& (c != d && c != target && is_sub_from(e, c, d, walk_fuel(e)) == Some(false) && is_sub_from(
                e,
                d,
                c,
                walk_fuel(e),
            ) == Some(false) && is_sub_from(e, c, target as int, walk_fuel(e)) == Some(false) && is_sub_from(
                e,
                target as int,
                c,
                walk_fuel(e),
            ) == Some(false)) ==> accessible(f, target, func, caller) == Some(false)
        }),
{
}

} // verus!
