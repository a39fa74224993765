use vstd::prelude::*;
use crate::cache::NameCache;
use crate::classes::{EngineState, FunctionPtr, PhpClass, scan_classes, scan_from, missing_parent_from, has_static, static_owner_from};
use crate::external::{index_contains, index_entries, index_get};
use crate::names::{ascii_lower, hash_method_name, method_name_hash, to_ascii_lowercase, normalize_name, normalized, str_equal};
use crate::value::PhpValue;
use crate::fibre::Fibre;

verus! {

/// Number of slots of the direct-mapped method cache.
pub const METHOD_CACHE_SIZE: usize = 16384;

/// Number of slots of the direct-mapped static-property cache.
pub const STATIC_PROP_CACHE_SIZE: usize = 16384;

/// One slot of the direct-mapped method cache: the class and the hash of
/// the method name it holds a function for (`None` when empty).
#[derive(Clone, Copy, PartialEq, Eq, Structural, Debug)]
pub struct MethodCacheSlot {
    pub class_id: usize,
    pub name_hash: u64,
    pub func_ptr: Option<FunctionPtr>,
}

/// One slot of the direct-mapped static-property cache.
#[derive(Clone, Copy, PartialEq, Eq, Structural, Debug)]
pub struct StaticPropCacheSlot {
    pub class_hash: u64,
    pub prop_hash: u64,
    pub val: PhpValue,
    pub is_set: bool,
}

/// `x` rotated left by `n` bits (`0 < n < 64`).
pub open spec fn rotate_left_u64(x: u64, n: u64) -> u64 {
    (x << n) | (x >> (64u64 - n))
}

/// The slot of the method cache that `(class_id, name_hash)` maps to.
pub open spec fn method_slot_index(class_id: usize, name_hash: u64) -> int {
    (((class_id as u64) ^ rotate_left_u64(name_hash, 13)) & 16383u64) as int
}

/// The slot of the static-property cache that `(class_hash, prop_hash)`
/// maps to.
pub open spec fn static_prop_slot_index(class_hash: u64, prop_hash: u64) -> int {
    ((class_hash ^ rotate_left_u64(prop_hash, 17)) & 16383u64) as int
}

/// What the static-property cache `slots` holds for `(class_hash, prop_hash)`.
pub open spec fn static_prop_cached(slots: Seq<StaticPropCacheSlot>, class_hash: u64, prop_hash: u64) -> Option<PhpValue> {
    let s = slots[static_prop_slot_index(class_hash, prop_hash)];
    if s.is_set && s.class_hash == class_hash && s.prop_hash == prop_hash {
        Some(s.val)
    } else {
        None
    }
}

/// What the method cache `slots` holds for `(class_id, name_hash)`.
pub open spec fn method_cached(slots: Seq<MethodCacheSlot>, class_id: usize, name_hash: u64) -> Option<FunctionPtr> {
    let s = slots[method_slot_index(class_id, name_hash)];
    if s.class_id == class_id && s.name_hash == name_hash && s.func_ptr is Some {
        s.func_ptr
    } else {
        None
    }
}

/// The static-property cache with every slot marked unset.
pub open spec fn unset_all(slots: Seq<StaticPropCacheSlot>) -> Seq<StaticPropCacheSlot> {
    slots.map_values(|s: StaticPropCacheSlot| StaticPropCacheSlot { is_set: false, ..s })
}

/// The empty method-cache slot.
pub open spec fn empty_method_slot() -> MethodCacheSlot {
    MethodCacheSlot { class_id: usize::MAX, name_hash: 0, func_ptr: None }
}

/// One decision of method lookup with autoloading.
#[derive(PartialEq, Eq, Debug)]
pub enum AutoloadStep {
    /// The lookup is over, with this result.
    Done(Option<FunctionPtr>),
    /// Load this parent class, then ask again.
    LoadParent(String),
}

/// The interpreter's lookup caches: the direct-mapped method and
/// static-property caches, and the method, declared-property and
/// instance-of caches keyed by class id and name.
pub struct VM {
    pub method_cache: Vec<MethodCacheSlot>,
    pub static_prop_cache: Vec<StaticPropCacheSlot>,
    pub method_l1: NameCache<Option<FunctionPtr>>,
    pub property_l1: NameCache<bool>,
    pub instance_of_l1: NameCache<bool>,
}

/// Slot indices stay inside the caches.
pub proof fn lemma_slot_indices_in_range(class_id: usize, name_hash: u64, class_hash: u64, prop_hash: u64)
    ensures
        0 <= method_slot_index(class_id, name_hash) < 16384,
        0 <= static_prop_slot_index(class_hash, prop_hash) < 16384,
{
    let a: u64 = (class_id as u64) ^ rotate_left_u64(name_hash, 13);
    let b: u64 = class_hash ^ rotate_left_u64(prop_hash, 17);
    assert(a & 16383u64 <= 16383u64) by (bit_vector);
    assert(b & 16383u64 <= 16383u64) by (bit_vector);
}

fn rotl13(x: u64) -> (r: u64)
    ensures
        r == rotate_left_u64(x, 13),
{
    (x << 13u64) | (x >> 51u64)
}

fn rotl17(x: u64) -> (r: u64)
    ensures
        r == rotate_left_u64(x, 17),
{
    (x << 17u64) | (x >> 47u64)
}

fn method_slot(class_id: usize, name_hash: u64) -> (r: usize)
    ensures
        r as int == method_slot_index(class_id, name_hash),
        r < 16384,
{
    let t: u64 = (class_id as u64) ^ rotl13(name_hash);
    let h: u64 = t & 16383u64;
    assert(t & 16383u64 <= 16383u64) by (bit_vector);
    h as usize
}

fn static_prop_slot(class_hash: u64, prop_hash: u64) -> (r: usize)
    ensures
        r as int == static_prop_slot_index(class_hash, prop_hash),
        r < 16384,
{
    let t: u64 = class_hash ^ rotl17(prop_hash);
    let h: u64 = t & 16383u64;
    assert(t & 16383u64 <= 16383u64) by (bit_vector);
    h as usize
}

/// The view of an optional string.
pub open spec fn opt_view(o: Option<&str>) -> Option<Seq<char>> {
    match o {
        Some(s) => Some(s@),
        None => None,
    }
}

/// The view of an optional owned string.
pub open spec fn opt_string_view(o: Option<String>) -> Option<Seq<char>> {
    match o {
        Some(s) => Some(s@),
        None => None,
    }
}

/// Whether a normalized class name is declared: the class index holds it
/// or some class carries it.
pub open spec fn class_declared(e: &EngineState, norm: Seq<char>) -> bool {
    index_entries(e.class_map).contains_key(norm) || scan_from(e.classes@, norm, 0) is Some
}

/// Whether a step of lookup with autoloading gives `o`: `Ok(f)` the
/// result `f`, `Err(p)` the request to load parent `p`.
pub open spec fn step_is(r: AutoloadStep, o: Result<Option<FunctionPtr>, Seq<char>>) -> bool {
    match (r, o) {
        (AutoloadStep::Done(f), Ok(g)) => f == g,
        (AutoloadStep::LoadParent(p), Err(q)) => p@ == q,
        _ => false,
    }
}

impl VM {
    /// One decision of method lookup with autoloading: when the parent the
    /// last load was asked to declare is still undeclared, the lookup ends
    /// with `None`; otherwise the method is looked up (through the method
    /// cache): a result ends it, and a missing parent is to be loaded,
    /// unless ten loads have been made already, which ends it with `None`.
    pub open spec fn lookup_step(
        &self,
        e: &EngineState,
        class_id: usize,
        name: Seq<char>,
        attempts: usize,
        loaded: Option<Seq<char>>,
    ) -> Result<Option<FunctionPtr>, Seq<char>> {
        if loaded matches Some(q) && !class_declared(e, normalized(q)) {
            Ok(None)
        } else {
            match self.resolution(e, class_id, name) {
                Some(Ok(f)) => Ok(f),
                Some(Err(p)) => if attempts >= 10 {
                    Ok(None)
                } else {
                    Err(p)
                },
                None => Ok(None),
            }
        }
    }

    /// The name-keyed method cache after a lookup of `name` from
    /// `class_id`: only the entry for `(class_id, name)` (ASCII lower-cased)
    /// may change, and what it then holds is this lookup's result.
    pub open spec fn l1_refreshed(&self, e: &EngineState, class_id: usize, name: Seq<char>, after: VM) -> bool {
        &&& forall|id2: usize, key2: Seq<char>|
            !(id2 == class_id && key2 == ascii_lower(name)) ==> #[trigger] after.method_l1.lookup(id2, key2)
                == self.method_l1.lookup(id2, key2)
        &&& (after.method_l1.lookup(class_id, ascii_lower(name)) matches Some(f) ==> self.resolution(e, class_id, name)
            == Some(Ok::<Option<FunctionPtr>, Seq<char>>(f)))
    }

    /// The method cache after a fast lookup of `name` from `class_id` gave
    /// `r`: unchanged, or the slot of `(class_id, name)` filled with the
    /// method the lookup found.
    pub open spec fn slots_refreshed(&self, e: &EngineState, class_id: usize, name: Seq<char>, r: AutoloadStep, after: VM) -> bool {
        ||| after.method_cache == self.method_cache
        ||| (r matches AutoloadStep::Done(Some(f)) && self.resolution(e, class_id, name) == Some(
            Ok::<Option<FunctionPtr>, Seq<char>>(Some(f)),
        ) && after.method_cache@ == self.method_cache@.update(
            method_slot_index(class_id, method_name_hash(name)),
            MethodCacheSlot { class_id, name_hash: method_name_hash(name), func_ptr: Some(f) },
        ))
    }

    /// The lookup a step makes ends (when it makes one).
    pub open spec fn lookup_step_ok(&self, e: &EngineState, class_id: usize, name: Seq<char>, loaded: Option<Seq<char>>) -> bool {
        !(loaded matches Some(q) && !class_declared(e, normalized(q))) ==> self.resolution(e, class_id, name) is Some
    }
}

impl VM {
    /// Both direct-mapped caches have all their slots.
    pub open spec fn wf(&self) -> bool {
        &&& self.method_cache@.len() == METHOD_CACHE_SIZE
        &&& self.static_prop_cache@.len() == STATIC_PROP_CACHE_SIZE
    }

    /// Caches with every slot empty.
    pub fn new() -> (r: VM)
        ensures
            r.wf(),
            forall|i: int| 0 <= i < METHOD_CACHE_SIZE ==> r.method_cache@[i] == empty_method_slot(),
            forall|i: int| 0 <= i < STATIC_PROP_CACHE_SIZE ==> !r.static_prop_cache@[i].is_set,
            forall|id: usize, key: Seq<char>| r.method_l1.lookup(id, key) is None,
            forall|id: usize, key: Seq<char>| r.property_l1.lookup(id, key) is None,
            forall|id: usize, key: Seq<char>| r.instance_of_l1.lookup(id, key) is None,
    {
        let mut method_cache: Vec<MethodCacheSlot> = Vec::new();
        let mut i: usize = 0;
        while i < METHOD_CACHE_SIZE
            invariant
                i <= METHOD_CACHE_SIZE,
                method_cache@.len() == i,
                forall|j: int| 0 <= j < i ==> method_cache@[j] == empty_method_slot(),
            decreases METHOD_CACHE_SIZE - i,
        {
            method_cache.push(MethodCacheSlot { class_id: usize::MAX, name_hash: 0, func_ptr: None });
            i = i + 1;
        }
        let mut static_prop_cache: Vec<StaticPropCacheSlot> = Vec::new();
        let mut j: usize = 0;
        while j < STATIC_PROP_CACHE_SIZE
            invariant
                j <= STATIC_PROP_CACHE_SIZE,
                static_prop_cache@.len() == j,
                forall|k: int| 0 <= k < j ==> !static_prop_cache@[k].is_set,
            decreases STATIC_PROP_CACHE_SIZE - j,
        {
            static_prop_cache.push(
                StaticPropCacheSlot { class_hash: u64::MAX, prop_hash: 0, val: PhpValue::Null, is_set: false },
            );
            j = j + 1;
        }
        VM {
            method_cache,
            static_prop_cache,
            method_l1: NameCache::new(),
            property_l1: NameCache::new(),
            instance_of_l1: NameCache::new(),
        }
    }

    /// The cached value of a static property, if the slot for
    /// `(class_hash, prop_hash)` holds it.
    pub fn get_cached_static_prop(&self, class_hash: u64, prop_hash: u64) -> (r: Option<PhpValue>)
        requires
            self.wf(),
        ensures
            r == static_prop_cached(self.static_prop_cache@, class_hash, prop_hash),
    {
        let i = static_prop_slot(class_hash, prop_hash);
        let slot = self.static_prop_cache[i];
        if slot.is_set && slot.class_hash == class_hash && slot.prop_hash == prop_hash {
            Some(slot.val)
        } else {
            None
        }
    }

    /// Stores a static property's value in the slot for
    /// `(class_hash, prop_hash)`, evicting what was there.
    pub fn set_cached_static_prop(&mut self, class_hash: u64, prop_hash: u64, val: PhpValue)
        requires
            old(self).wf(),
        ensures
            final(self).wf(),
            final(self).static_prop_cache@ == old(self).static_prop_cache@.update(
                static_prop_slot_index(class_hash, prop_hash),
                StaticPropCacheSlot { class_hash, prop_hash, val, is_set: true },
            ),
            final(self).method_cache@ == old(self).method_cache@,
            final(self).method_l1 == old(self).method_l1,
            final(self).property_l1 == old(self).property_l1,
            final(self).instance_of_l1 == old(self).instance_of_l1,
    {
        let i = static_prop_slot(class_hash, prop_hash);
        self.static_prop_cache.set(i, StaticPropCacheSlot { class_hash, prop_hash, val, is_set: true });
    }

    /// Marks every slot of the static-property cache unset.
    pub fn invalidate_static_prop_cache(&mut self)
        requires
            old(self).wf(),
        ensures
            final(self).wf(),
            final(self).static_prop_cache@ == unset_all(old(self).static_prop_cache@),
            final(self).method_cache@ == old(self).method_cache@,
            final(self).method_l1 == old(self).method_l1,
            final(self).property_l1 == old(self).property_l1,
            final(self).instance_of_l1 == old(self).instance_of_l1,
    {
        let mut i: usize = 0;
        while i < STATIC_PROP_CACHE_SIZE
            invariant
                i <= STATIC_PROP_CACHE_SIZE,
                self.static_prop_cache@.len() == STATIC_PROP_CACHE_SIZE,
                old(self).static_prop_cache@.len() == STATIC_PROP_CACHE_SIZE,
                forall|j: int| 0 <= j < i ==> self.static_prop_cache@[j] == (StaticPropCacheSlot {
                    is_set: false,
                    ..old(self).static_prop_cache@[j]
                }),
                forall|j: int| i <= j < STATIC_PROP_CACHE_SIZE ==> self.static_prop_cache@[j] == old(self).static_prop_cache@[j],
                self.method_cache@ == old(self).method_cache@,
                self.method_l1 == old(self).method_l1,
                self.property_l1 == old(self).property_l1,
                self.instance_of_l1 == old(self).instance_of_l1,
            decreases STATIC_PROP_CACHE_SIZE - i,
        {
            let mut slot = self.static_prop_cache[i];
            slot.is_set = false;
            self.static_prop_cache.set(i, slot);
            i = i + 1;
        }
        proof {
            assert(self.static_prop_cache@ =~= unset_all(old(self).static_prop_cache@));
        }
    }

    /// Empties the method cache and every name-keyed cache, and unsets the
    /// static-property cache.
    pub fn invalidate_method_cache(&mut self)
        requires
            old(self).wf(),
        ensures
            final(self).wf(),
            forall|i: int| 0 <= i < METHOD_CACHE_SIZE ==> final(self).method_cache@[i] == empty_method_slot(),
            final(self).static_prop_cache@ == unset_all(old(self).static_prop_cache@),
            forall|id: usize, key: Seq<char>| final(self).method_l1.lookup(id, key) is None,
            forall|id: usize, key: Seq<char>| final(self).property_l1.lookup(id, key) is None,
            forall|id: usize, key: Seq<char>| final(self).instance_of_l1.lookup(id, key) is None,
    {
        let mut i: usize = 0;
        while i < METHOD_CACHE_SIZE
            invariant
                i <= METHOD_CACHE_SIZE,
                self.method_cache@.len() == METHOD_CACHE_SIZE,
                self.static_prop_cache@ == old(self).static_prop_cache@,
                forall|j: int| 0 <= j < i ==> self.method_cache@[j] == empty_method_slot(),
            decreases METHOD_CACHE_SIZE - i,
        {
            self.method_cache.set(i, MethodCacheSlot { class_id: usize::MAX, name_hash: 0, func_ptr: None });
            i = i + 1;
        }
        self.method_l1.clear();
        self.property_l1.clear();
        self.instance_of_l1.clear();
        self.invalidate_static_prop_cache();
    }

    /// The result of method lookup through the name-keyed method cache: a
    /// cached result under the ASCII lower-cased name, else the lookup on
    /// the engine.
    #[verifier::opaque]
    pub open spec fn resolution(&self, e: &EngineState, class_id: usize, name: Seq<char>) -> Option<
        Result<Option<FunctionPtr>, Seq<char>>,
    > {
        match self.method_l1.lookup(class_id, ascii_lower(name)) {
            Some(f) => Some(Ok(f)),
            None => e.method_lookup(class_id as int, name),
        }
    }

    /// The method `class_id` or its nearest ancestor declares under
    /// `method_name`, through the method cache. `Err` names a parent class
    /// that is not declared; a cached result is returned as it was cached.
    pub fn find_method(&mut self, e: &EngineState, class_id: usize, method_name: &str) -> (r: Result<
        Option<FunctionPtr>,
        String,
    >)
        requires
            old(self).resolution(e, class_id, method_name@) is Some,
        ensures
            match r {
                Ok(f) => old(self).resolution(e, class_id, method_name@) == Some(
                    Ok::<Option<FunctionPtr>, Seq<char>>(f),
                ),
                Err(p) => old(self).resolution(e, class_id, method_name@) == Some(
                    Err::<Option<FunctionPtr>, Seq<char>>(p@),
                ),
            },
            r is Ok ==> final(self).method_l1.lookup(class_id, ascii_lower(method_name@)) == Some(
                r->Ok_0,
            ),
            r is Err ==> final(self).method_l1 == old(self).method_l1,
            old(self).l1_refreshed(e, class_id, method_name@, *final(self)),
            final(self).method_cache == old(self).method_cache,
            final(self).static_prop_cache == old(self).static_prop_cache,
            final(self).property_l1 == old(self).property_l1,
            final(self).instance_of_l1 == old(self).instance_of_l1,
    {
        reveal(VM::resolution);
        let norm_method = to_ascii_lowercase(method_name);
        match self.method_l1.get(class_id, &norm_method) {
            Some(cached) => {
                return Ok(cached);
            },
            None => {},
        }
        let r = e.lookup_method(class_id, method_name);
        match r {
            Ok(f) => {
                self.method_l1.insert(class_id, norm_method, f);
                Ok(f)
            },
            Err(p) => Err(p),
        }
    }

    /// Whether `class_id` or an ancestor declares `method_name`.
    pub fn class_has_method(&mut self, e: &EngineState, class_id: usize, method_name: &str) -> (r: bool)
        requires
            old(self).resolution(e, class_id, method_name@) is Some,
        ensures
            r == (old(self).resolution(e, class_id, method_name@) matches Some(Ok(Some(_)))),
    {
        match self.find_method(e, class_id, method_name) {
            Ok(Some(_)) => true,
            _ => false,
        }
    }

    /// One decision of method lookup with autoloading, after `attempts`
    /// parent loads, `loaded` being the parent the last one was asked to
    /// declare (see [`VM::lookup_step`]).
    pub fn find_method_step(
        &mut self,
        e: &EngineState,
        class_id: usize,
        method_name: &str,
        attempts: usize,
        loaded: Option<&str>,
    ) -> (r: AutoloadStep)
        requires
            old(self).lookup_step_ok(e, class_id, method_name@, opt_view(loaded)),
        ensures
            step_is(r, old(self).lookup_step(e, class_id, method_name@, attempts, opt_view(loaded))),
            old(self).l1_refreshed(e, class_id, method_name@, *final(self)),
            r is LoadParent ==> *final(self) == *old(self),
            final(self).method_cache == old(self).method_cache,
            final(self).static_prop_cache == old(self).static_prop_cache,
    {
        match loaded {
            Some(q) => {
                let norm = normalize_name(q);
                if !index_contains(&e.class_map, norm.as_str()) && scan_classes(e.classes.as_slice(), &norm).is_none() {
                    proof {
                        reveal(VM::resolution);
                    }
                    return AutoloadStep::Done(None);
                }
            },
            None => {},
        }
        match self.find_method(e, class_id, method_name) {
            Ok(f) => AutoloadStep::Done(f),
            Err(p) => {
                if attempts >= 10 {
                    AutoloadStep::Done(None)
                } else {
                    AutoloadStep::LoadParent(p)
                }
            },
        }
    }

    /// Method lookup with autoloading, as [`VM::find_method_with_autoload`]
    /// runs it from `f` after `attempts` loads, `loaded` the parent the last
    /// one was asked to declare, each load made by `load` (see
    /// [`VM::lookup_step`]): a decision that ends the lookup gives its
    /// result and leaves the fibre; a parent to load is handed to `load`,
    /// and the lookup goes on from the fibre it gives back.
    pub open spec fn autoload_lookup<F: Fn(Fibre, String) -> Fibre>(
        &self,
        f: Fibre,
        class_id: usize,
        name: Seq<char>,
        attempts: nat,
        loaded: Option<Seq<char>>,
        load: F,
        r: Option<FunctionPtr>,
        after: Fibre,
    ) -> bool
        decreases 10 - attempts,
    {
        match self.lookup_step(&f.engine_state, class_id, name, attempts as usize, loaded) {
            Ok(x) => r == x && after == f,
            Err(p) => if attempts >= 10 {
                false
            } else {
                exists|s: String, f2: Fibre|
                    #[trigger] call_ensures(load, (f, s), f2) && s@ == p && self.autoload_lookup(
                        f2,
                        class_id,
                        name,
                        attempts + 1,
                        Some(p),
                        load,
                        r,
                        after,
                    )
            },
        }
    }

    /// Method lookup with autoloading: while the lookup names a missing
    /// parent class, `load` is asked to declare it (the fibre's autoloaders
    /// run there), at most ten times; the lookup then ends with `None` when
    /// the parent is still undeclared or after the tenth load, else with
    /// what it finds (see [`VM::autoload_lookup`]). `load` must leave every
    /// lookup from `class_id` ending (an ancestry with no cycle).
    pub fn find_method_with_autoload<F: Fn(Fibre, String) -> Fibre>(
        &mut self,
        fibre: Fibre,
        class_id: usize,
        method_name: &str,
        load: F,
    ) -> (r: (Fibre, Option<FunctionPtr>))
        requires
            fibre.engine_state.method_lookup(class_id as int, method_name@) is Some,
            forall|f: Fibre, s: String| #[trigger] call_requires(load, (f, s)),
            forall|f: Fibre, s: String, f2: Fibre|
                #[trigger] call_ensures(load, (f, s), f2) ==> f2.engine_state.method_lookup(class_id as int, method_name@)
                    is Some,
        ensures
            old(self).autoload_lookup(fibre, class_id, method_name@, 0, None, load, r.1, r.0),
    {
        let ghost start = fibre;
        let mut fb = fibre;
        let mut attempts: usize = 0;
        let mut loaded: Option<String> = None;
        loop
            invariant
                *self == *old(self),
                start == fibre,
                attempts <= 10,
                attempts == 0 ==> loaded is None,
                fb.engine_state.method_lookup(class_id as int, method_name@) is Some,
                forall|f: Fibre, s: String| #[trigger] call_requires(load, (f, s)),
                forall|f: Fibre, s: String, f2: Fibre|
                    #[trigger] call_ensures(load, (f, s), f2) ==> f2.engine_state.method_lookup(
                        class_id as int,
                        method_name@,
                    ) is Some,
                forall|r: Option<FunctionPtr>, after: Fibre|
                    #[trigger] self.autoload_lookup(
                        fb,
                        class_id,
                        method_name@,
                        attempts as nat,
                        opt_string_view(loaded),
                        load,
                        r,
                        after,
                    ) ==> old(self).autoload_lookup(start, class_id, method_name@, 0, None, load, r, after),
            decreases 10 - attempts,
        {
            let ghost cur = fb;
            let ghost s0 = *self;
            proof {
                reveal(VM::resolution);
            }
            let step = match &loaded {
                Some(q) => self.find_method_step(&fb.engine_state, class_id, method_name, attempts, Some(q.as_str())),
                None => self.find_method_step(&fb.engine_state, class_id, method_name, attempts, None),
            };
            match step {
                AutoloadStep::Done(x) => {
                    assert(s0.autoload_lookup(cur, class_id, method_name@, attempts as nat, opt_string_view(loaded), load, x, fb));
                    return (fb, x);
                },
                AutoloadStep::LoadParent(p) => {
                    let f2 = load(fb, p.clone());
                    fb = f2;
                    let ghost g_attempts = attempts;
                    let ghost g_loaded = opt_string_view(loaded);
                    attempts = attempts + 1;
                    loaded = Some(p);
                    proof {
                        assert forall|r: Option<FunctionPtr>, after: Fibre|
                            #[trigger] self.autoload_lookup(
                                fb,
                                class_id,
                                method_name@,
                                attempts as nat,
                                opt_string_view(loaded),
                                load,
                                r,
                                after,
                            ) implies self.autoload_lookup(cur, class_id, method_name@, g_attempts as nat, g_loaded, load, r, after) by {
                        }
                    }
                },
            }
        }
    }

    /// The function the method cache holds for `(class_id, method_name)`.
    pub fn probe_method_cache(&self, class_id: usize, method_name: &str) -> (r: Option<FunctionPtr>)
        requires
            self.wf(),
        ensures
            r == method_cached(self.method_cache@, class_id, method_name_hash(method_name@)),
    {
        let name_hash = hash_method_name(method_name);
        let i = method_slot(class_id, name_hash);
        let slot = self.method_cache[i];
        if slot.class_id == class_id && slot.name_hash == name_hash && slot.func_ptr.is_some() {
            slot.func_ptr
        } else {
            None
        }
    }

    /// Files `func_ptr` in the method cache under `(class_id, method_name)`,
    /// evicting the slot's previous occupant.
    pub fn record_method(&mut self, class_id: usize, method_name: &str, func_ptr: FunctionPtr)
        requires
            old(self).wf(),
        ensures
            final(self).wf(),
            final(self).method_cache@ == old(self).method_cache@.update(
                method_slot_index(class_id, method_name_hash(method_name@)),
                MethodCacheSlot { class_id, name_hash: method_name_hash(method_name@), func_ptr: Some(func_ptr) },
            ),
            final(self).static_prop_cache == old(self).static_prop_cache,
            final(self).method_l1 == old(self).method_l1,
            final(self).property_l1 == old(self).property_l1,
            final(self).instance_of_l1 == old(self).instance_of_l1,
    {
        let name_hash = hash_method_name(method_name);
        let i = method_slot(class_id, name_hash);
        self.method_cache.set(i, MethodCacheSlot { class_id, name_hash, func_ptr: Some(func_ptr) });
    }

    /// Method lookup through the method cache first: a hit is the result;
    /// on a miss, one decision of the lookup with autoloading (see
    /// [`VM::find_method_step`]), a found method being filed in
    /// the cache. The lookup ends with a method or `None`; it asks the
    /// caller to load a parent at most ten times.
    pub fn find_method_fast(
        &mut self,
        e: &EngineState,
        class_id: usize,
        method_name: &str,
        attempts: usize,
        loaded: Option<&str>,
    ) -> (r: AutoloadStep)
        requires
            old(self).wf(),
            method_cached(old(self).method_cache@, class_id, method_name_hash(method_name@)) is Some
                || old(self).lookup_step_ok(e, class_id, method_name@, opt_view(loaded)),
        ensures
            final(self).wf(),
            match method_cached(old(self).method_cache@, class_id, method_name_hash(method_name@)) {
                Some(f) => r == AutoloadStep::Done(Some(f)),
                None => step_is(r, old(self).lookup_step(e, class_id, method_name@, attempts, opt_view(loaded))),
            },
            r matches AutoloadStep::Done(Some(f)) ==> method_cached(
                final(self).method_cache@,
                class_id,
                method_name_hash(method_name@),
            ) == Some(f),
            old(self).l1_refreshed(e, class_id, method_name@, *final(self)),
            old(self).slots_refreshed(e, class_id, method_name@, r, *final(self)),
    {
        match self.probe_method_cache(class_id, method_name) {
            Some(f) => {
                proof {
                    reveal(VM::resolution);
                }
                return AutoloadStep::Done(Some(f));
            },
            None => {},
        }
        let ghost h = method_name_hash(method_name@);
        let r = self.find_method_step(e, class_id, method_name, attempts, loaded);
        match r {
            AutoloadStep::Done(Some(f)) => {
                self.record_method(class_id, method_name, f);
                proof {
                    lemma_slot_indices_in_range(class_id, h, 0, 0);
                }
                assert(self.method_cache@[method_slot_index(class_id, h)] == MethodCacheSlot {
                    class_id,
                    name_hash: h,
                    func_ptr: Some(f),
                });
                AutoloadStep::Done(Some(f))
            },
            other => other,
        }
    }
}

impl VM {
    /// The first ancestor of `class_id` whose parent name names no class, as
    /// that parent name; `None` when the ancestry is complete.
    pub fn find_missing_parent(classes: &[PhpClass], class_id: usize) -> (r: Option<String>)
        requires
            missing_parent_from(classes@, class_id as int, (classes@.len() + 1) as nat) is Some,
        ensures
            missing_parent_from(classes@, class_id as int, (classes@.len() + 1) as nat) == Some(
                crate::classes::opt_str(r),
            ),
    {
        let ghost total = missing_parent_from(classes@, class_id as int, (classes@.len() + 1) as nat);
        let ghost mut fuel: nat = (classes@.len() + 1) as nat;
        let mut current_id = class_id;
        loop
            invariant
                missing_parent_from(classes@, current_id as int, fuel) == total,
                total == missing_parent_from(classes@, class_id as int, (classes@.len() + 1) as nat),
                total is Some,
            decreases fuel,
        {
            assert(fuel > 0);
            if current_id >= classes.len() {
                return None;
            }
            match &classes[current_id].extends {
                None => {
                    return None;
                },
                Some(parent_name) => {
                    let norm = normalize_name(parent_name.as_str());
                    match scan_classes(classes, &norm) {
                        Some(pid) => {
                            current_id = pid;
                            proof {
                                fuel = (fuel - 1) as nat;
                            }
                        },
                        None => {
                            return Some(parent_name.clone());
                        },
                    }
                },
            }
        }
    }

    /// The key under which a static property lives in the statics table:
    /// the normalized class name of the nearest class, from `class_name` up,
    /// with an entry for `prop_name`; the normalized `class_name` when none
    /// has one.
    pub fn find_static_property_key(
        classes: &[PhpClass],
        class_name: &str,
        prop_name: &str,
        default_statics: &Vec<((String, String), PhpValue)>,
    ) -> (r: (String, String))
        requires
            static_owner_from(classes@, default_statics@, normalized(class_name@), prop_name@, (classes@.len() + 1) as nat) is Some,
        ensures
            r.1@ == prop_name@,
            r.0@ == match static_owner_from(classes@, default_statics@, normalized(class_name@), prop_name@, (classes@.len() + 1) as nat) {
                Some(Some(owner)) => owner,
                _ => normalized(class_name@),
            },
    {
        let ghost total = static_owner_from(classes@, default_statics@, normalized(class_name@), prop_name@, (classes@.len() + 1) as nat);
        let ghost mut fuel: nat = (classes@.len() + 1) as nat;
        let mut current = normalize_name(class_name);
        loop
            invariant
                static_owner_from(classes@, default_statics@, current@, prop_name@, fuel) == total,
                total == static_owner_from(classes@, default_statics@, normalized(class_name@), prop_name@, (classes@.len() + 1) as nat),
                total is Some,
            decreases fuel,
        {
            assert(fuel > 0);
            if statics_contain(default_statics, current.as_str(), prop_name) {
                return (current, prop_name.to_owned());
            }
            match scan_classes(classes, &current) {
                Some(i) => match &classes[i].extends {
                    Some(parent_name) => {
                        current = normalize_name(parent_name.as_str());
                        proof {
                            fuel = (fuel - 1) as nat;
                        }
                    },
                    None => {
                        return (normalize_name(class_name), prop_name.to_owned());
                    },
                },
                None => {
                    return (normalize_name(class_name), prop_name.to_owned());
                },
            }
        }
    }
}

/// Whether class `c` declares a property named `prop`.
pub open spec fn declares_property(c: PhpClass, prop: Seq<char>) -> bool {
    exists|i: int| 0 <= i < c.default_properties@.len() && #[trigger] c.default_properties@[i].0@ == prop
}

/// Whether class `id` or an ancestor reached through the class index
/// declares `prop`, with `fuel` steps.
pub open spec fn property_declared_from(e: &EngineState, id: int, prop: Seq<char>, fuel: nat) -> Option<bool>
    decreases fuel,
{
    if fuel == 0 {
        None
    } else if id < 0 || id >= e.classes@.len() {
        Some(false)
    } else if declares_property(e.classes@[id], prop) {
        Some(true)
    } else {
        match e.classes@[id].extends {
            None => Some(false),
            Some(p) => match index_entries(e.class_map).get(normalized(p@)) {
                None => Some(false),
                Some(pid) => property_declared_from(e, pid as int, prop, (fuel - 1) as nat),
            },
        }
    }
}

fn declares_property_exec(c: &PhpClass, prop: &str) -> (r: bool)
    ensures
        r == declares_property(*c, prop@),
{
    let mut i: usize = 0;
    while i < c.default_properties.len()
        invariant
            i <= c.default_properties@.len(),
            forall|j: int| 0 <= j < i ==> c.default_properties@[j].0@ != prop@,
        decreases c.default_properties@.len() - i,
    {
        if str_equal(c.default_properties[i].0.as_str(), prop) {
            return true;
        }
        i = i + 1;
    }
    false
}

impl VM {
    /// Whether `class_id` or an ancestor reached through the class index
    /// declares the property `prop_name`, through the declared-property
    /// cache: a cached answer is returned as it was cached, a computed one
    /// is cached.
    pub fn class_has_declared_property(&mut self, e: &EngineState, class_id: usize, prop_name: &str) -> (r: bool)
        requires
            old(self).property_l1.lookup(class_id, prop_name@) is Some
                || property_declared_from(e, class_id as int, prop_name@, (e.classes@.len() + 1) as nat) is Some,
        ensures
            match old(self).property_l1.lookup(class_id, prop_name@) {
                Some(b) => r == b,
                None => property_declared_from(e, class_id as int, prop_name@, (e.classes@.len() + 1) as nat) == Some(r),
            },
            final(self).property_l1.lookup(class_id, prop_name@) == Some(r),
            forall|id2: usize, key2: Seq<char>|
                !(id2 == class_id && key2 == prop_name@) ==> final(self).property_l1.lookup(id2, key2)
                    == old(self).property_l1.lookup(id2, key2),
            final(self).method_cache == old(self).method_cache,
            final(self).static_prop_cache == old(self).static_prop_cache,
            final(self).method_l1 == old(self).method_l1,
            final(self).instance_of_l1 == old(self).instance_of_l1,
    {
        let key = prop_name.to_owned();
        match self.property_l1.get(class_id, &key) {
            Some(b) => {
                return b;
            },
            None => {},
        }
        let ghost total = property_declared_from(e, class_id as int, prop_name@, (e.classes@.len() + 1) as nat);
        let ghost mut fuel: nat = (e.classes@.len() + 1) as nat;
        let mut cur = class_id;
        let mut found = false;
        loop
            invariant_except_break
                property_declared_from(e, cur as int, prop_name@, fuel) == total,
                !found,
            invariant
                total is Some,
                total == property_declared_from(e, class_id as int, prop_name@, (e.classes@.len() + 1) as nat),
            ensures
                total == Some(found),
            decreases fuel,
        {
            assert(fuel > 0);
            if cur >= e.classes.len() {
                break;
            }
            let c = &e.classes[cur];
            if declares_property_exec(c, prop_name) {
                found = true;
                break;
            }
            match &c.extends {
                None => {
                    break;
                },
                Some(p) => {
                    let norm = normalize_name(p.as_str());
                    match index_get(&e.class_map, norm.as_str()) {
                        None => {
                            break;
                        },
                        Some(pid) => {
                            cur = pid;
                            proof {
                                fuel = (fuel - 1) as nat;
                            }
                        },
                    }
                },
            }
        }
        self.property_l1.insert(class_id, key, found);
        found
    }
}

/// Whether the statics table has an entry for `(class, prop)`.
fn statics_contain(statics: &Vec<((String, String), PhpValue)>, class: &str, prop: &str) -> (r: bool)
    ensures
        r == has_static(statics@, class@, prop@),
{
    let mut i: usize = 0;
    while i < statics.len()
        invariant
            i <= statics@.len(),
            forall|j: int| 0 <= j < i ==> !(statics@[j].0.0@ == class@ && statics@[j].0.1@ == prop@),
        decreases statics@.len() - i,
    {
        if str_equal(statics[i].0.0.as_str(), class) && str_equal(statics[i].0.1.as_str(), prop) {
            return true;
        }
        i = i + 1;
    }
    false
}

} // verus!
