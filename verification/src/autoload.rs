use vstd::prelude::*;
use crate::args::{HeapView, alloc_string, heap};
use crate::classes::{EngineState, FunctionPtr};
use crate::external::{index_contains, index_entries};
use crate::fibre::{CallFrame, Fibre, pushed_stack};
use crate::http::{to_lowercase, unicode_lowercase};
use crate::instance::{is_relative_keyword, is_relative_keyword_exec};
use crate::names::{chars_of, normalize_name, normalized, str_equal};
use crate::pad::{pad_result, push_raw};
use crate::resolve::value_ok;
use crate::sapi::string_of;
use crate::value::{ArrayKey, PhpValue, array_get};
use crate::vm::VM;

verus! {

/// A name-keyed table as plain values.
pub open spec fn table_view(t: Seq<(String, usize)>) -> Seq<(Seq<char>, usize)> {
    t.map_values(|e: (String, usize)| (e.0@, e.1))
}

/// The index of the first entry at `i` or later for `key`.
pub open spec fn table_index(t: Seq<(Seq<char>, usize)>, key: Seq<char>, i: int) -> Option<int>
    decreases t.len() - i,
{
    if i < 0 || i >= t.len() {
        None
    } else if t[i].0 == key {
        Some(i)
    } else {
        table_index(t, key, i + 1)
    }
}

/// The value the table holds for `key`.
pub open spec fn table_get(t: Seq<(Seq<char>, usize)>, key: Seq<char>) -> Option<usize> {
    match table_index(t, key, 0) {
        Some(i) => Some(t[i].1),
        None => None,
    }
}

/// The table with `key` set to `v`: its entry updated, or a new entry at
/// the end.
pub open spec fn table_set(t: Seq<(Seq<char>, usize)>, key: Seq<char>, v: usize) -> Seq<(Seq<char>, usize)> {
    match table_index(t, key, 0) {
        Some(i) => t.update(i, (key, v)),
        None => t.push((key, v)),
    }
}

proof fn lemma_table_index(t: Seq<(Seq<char>, usize)>, key: Seq<char>, i: int)
    requires
        0 <= i,
    ensures
        match table_index(t, key, i) {
            Some(k) => i <= k < t.len() && t[k].0 == key && forall|j: int| i <= j < k ==> t[j].0 != key,
            None => forall|j: int| i <= j < t.len() ==> t[j].0 != key,
        },
    decreases t.len() - i,
{
    if i < t.len() {
        lemma_table_index(t, key, i + 1);
    }
}

proof fn lemma_table_index_first(t: Seq<(Seq<char>, usize)>, key: Seq<char>, i: int, k: int)
    requires
        0 <= i <= k < t.len(),
        t[k].0 == key,
        forall|j: int| i <= j < k ==> t[j].0 != key,
    ensures
        table_index(t, key, i) == Some(k),
    decreases k - i,
{
    if i < k {
        lemma_table_index_first(t, key, i + 1, k);
    }
}

/// Setting a key twice leaves what the second setting leaves.
proof fn lemma_table_set_twice(t: Seq<(Seq<char>, usize)>, key: Seq<char>, a: usize, b: usize)
    ensures
        table_set(table_set(t, key, a), key, b) == table_set(t, key, b),
{
    lemma_table_index(t, key, 0);
    let t1 = table_set(t, key, a);
    match table_index(t, key, 0) {
        Some(k) => {
            lemma_table_index_first(t1, key, 0, k);
            assert(t1.update(k, (key, b)) =~= t.update(k, (key, b)));
        },
        None => {
            lemma_table_index_first(t1, key, 0, t.len() as int);
            assert(t1.update(t.len() as int, (key, b)) =~= t.push((key, b)));
        },
    }
}

fn table_get_exec(t: &Vec<(String, usize)>, key: &str) -> (r: Option<usize>)
    ensures
        r == table_get(table_view(t@), key@),
{
    let ghost tv = table_view(t@);
    let mut i: usize = 0;
    while i < t.len()
        invariant
            tv == table_view(t@),
            i <= t@.len(),
            table_index(tv, key@, 0) == table_index(tv, key@, i as int),
        decreases t@.len() - i,
    {
        assert(tv[i as int] == (t@[i as int].0@, t@[i as int].1));
        if str_equal(t[i].0.as_str(), key) {
            return Some(t[i].1);
        }
        i = i + 1;
    }
    None
}

fn table_set_exec(t: &mut Vec<(String, usize)>, key: String, v: usize)
    ensures
        table_view(final(t)@) == table_set(table_view(old(t)@), key@, v),
{
    let ghost tv = table_view(t@);
    let mut i: usize = 0;
    while i < t.len()
        invariant
            tv == table_view(t@),
            t@ == old(t)@,
            i <= t@.len(),
            table_index(tv, key@, 0) == table_index(tv, key@, i as int),
        decreases t@.len() - i,
    {
        assert(tv[i as int] == (t@[i as int].0@, t@[i as int].1));
        if str_equal(t[i].0.as_str(), key.as_str()) {
            t.set(i, (key, v));
            proof {
                assert(table_view(t@) =~= tv.update(i as int, (key@, v)));
            }
            return;
        }
        i = i + 1;
    }
    let ghost kv = key@;
    t.push((key, v));
    proof {
        assert(table_view(t@) =~= tv.push((kv, v)));
    }
}

/// The first `s` with all leading `\` removed.
pub open spec fn trim_backslashes(s: Seq<char>) -> Seq<char>
    decreases s.len(),
{
    if s.len() > 0 && s[0] == '\\' {
        trim_backslashes(s.drop_first())
    } else {
        s
    }
}

/// The method a class or an ancestor declares under a name, when the
/// lookup finds one.
pub open spec fn method_found(e: &EngineState, id: int, name: Seq<char>) -> Option<FunctionPtr> {
    match e.method_lookup(id, name) {
        Some(Ok(Some(f))) => Some(f),
        _ => None,
    }
}

impl Fibre {
    /// The first function at index `i` or later whose name, lower-cased
    /// by Unicode, is `name` lower-cased.
    pub open spec fn function_named(&self, name: Seq<char>, i: int) -> Option<int>
        decreases self.engine_state.functions@.len() - i,
    {
        let fs = self.engine_state.functions@;
        if i < 0 || i >= fs.len() {
            None
        } else if unicode_lowercase(fs[i].name@) == unicode_lowercase(name) {
            Some(i)
        } else {
            self.function_named(name, i + 1)
        }
    }

    /// The function a registered class loader runs: a closure's function;
    /// the function a string names; for `[class, method]` or
    /// `[object, method]` the method (lower-cased by Unicode) of that
    /// class or of the object's class.
    pub open spec fn loader_target(&self, loader: PhpValue) -> Option<FunctionPtr> {
        let a = self.arena;
        let e = &self.engine_state;
        match loader {
            PhpValue::Closure(h) => Some(a.closures@[h as int].function_ptr),
            PhpValue::Str(h) => match self.function_named(a.strings@[h as int]@, 0) {
                Some(i) => Some(FunctionPtr(i as usize)),
                None => None,
            },
            PhpValue::Array(h) => {
                let arr = a.arrays@[h as int].view();
                match (array_get(arr, ArrayKey::Int(0)), array_get(arr, ArrayKey::Int(1))) {
                    (Some(PhpValue::Str(c)), Some(PhpValue::Str(m))) => match e.class_id_by_name(a.strings@[c as int]@) {
                        Some(id) => method_found(e, id, unicode_lowercase(a.strings@[m as int]@)),
                        None => None,
                    },
                    (Some(PhpValue::Object(o)), Some(PhpValue::Str(m))) => method_found(
                        e,
                        self.obj_class_id(a.objects@[o as int]) as int,
                        unicode_lowercase(a.strings@[m as int]@),
                    ),
                    _ => None,
                }
            },
            _ => None,
        }
    }

    /// A loader can be examined: its handles, and those of the first two
    /// elements of a loader array, point into the arena, and the method
    /// lookup it asks for ends.
    pub open spec fn loader_ok(&self, loader: PhpValue) -> bool {
        let a = self.arena;
        let e = &self.engine_state;
        &&& value_ok(&a, loader)
        &&& match loader {
            PhpValue::Array(h) => {
                let arr = a.arrays@[h as int].view();
                &&& (match array_get(arr, ArrayKey::Int(0)) {
                    Some(v) => value_ok(&a, v),
                    None => true,
                })
                &&& (match array_get(arr, ArrayKey::Int(1)) {
                    Some(v) => value_ok(&a, v),
                    None => true,
                })
                &&& match (array_get(arr, ArrayKey::Int(0)), array_get(arr, ArrayKey::Int(1))) {
                    (Some(PhpValue::Str(c)), Some(PhpValue::Str(m))) => match e.class_id_by_name(a.strings@[c as int]@) {
                        Some(id) => e.method_lookup(id, unicode_lowercase(a.strings@[m as int]@)) is Some,
                        None => true,
                    },
                    (Some(PhpValue::Object(o)), Some(PhpValue::Str(m))) => e.method_lookup(
                        self.obj_class_id(a.objects@[o as int]) as int,
                        unicode_lowercase(a.strings@[m as int]@),
                    ) is Some,
                    _ => true,
                }
            },
            _ => true,
        }
    }

    /// The loaders a fibre uses: its own copy, or the registered ones
    /// when it has none yet.
    pub open spec fn loaders(&self) -> Seq<PhpValue> {
        if self.autoloaders@.len() > 0 {
            self.autoloaders@
        } else {
            self.engine_state.autoloaders@
        }
    }

    /// The first loader at index `i` or later with a function to run;
    /// `None` also when a loader before it cannot be examined.
    pub open spec fn first_loader_from(&self, ls: Seq<PhpValue>, i: int) -> Option<int>
        decreases ls.len() - i,
    {
        if i < 0 || i >= ls.len() {
            None
        } else if self.loader_target(ls[i]) is Some {
            Some(i)
        } else {
            self.first_loader_from(ls, i + 1)
        }
    }

    /// Every loader up to the first with a function to run can be examined.
    pub open spec fn loaders_ok_from(&self, ls: Seq<PhpValue>, i: int) -> bool
        decreases ls.len() - i,
    {
        if i < 0 || i >= ls.len() {
            true
        } else {
            self.loader_ok(ls[i]) && (self.loader_target(ls[i]) is Some || self.loaders_ok_from(ls, i + 1))
        }
    }

    /// The value pushed as `$this` for a loader's call, and the class the
    /// call runs for: an object that heads a loader array and its class; a
    /// closure's bound `$this` (the closure itself without one) and its
    /// class; otherwise 0, with the class a string heading a loader array
    /// names.
    pub open spec fn loader_context(&self, loader: PhpValue) -> (PhpValue, usize) {
        let a = self.arena;
        match loader {
            PhpValue::Array(h) => match array_get(a.arrays@[h as int].view(), ArrayKey::Int(0)) {
                Some(PhpValue::Object(o)) => (PhpValue::Object(o), self.obj_class_id(a.objects@[o as int])),
                Some(PhpValue::Str(c)) => (
                    PhpValue::Int(0),
                    match self.engine_state.class_id_by_name(a.strings@[c as int]@) {
                        Some(id) => id as usize,
                        None => 0,
                    },
                ),
                _ => (PhpValue::Int(0), 0),
            },
            PhpValue::Closure(h) => {
                let c = a.closures@[h as int];
                (
                    match c.this_val {
                        Some(t) => t,
                        None => loader,
                    },
                    c.called_class_id,
                )
            },
            _ => (PhpValue::Int(0), 0),
        }
    }

    /// The values a loader's closure captured.
    pub open spec fn loader_upvalues(&self, loader: PhpValue) -> Seq<PhpValue> {
        match loader {
            PhpValue::Closure(h) => self.arena.closures@[h as int].upvalues@,
            _ => Seq::empty(),
        }
    }

    /// The index of the next loader to try for a normalized class name.
    pub open spec fn autoload_start(&self, norm: Seq<char>) -> int {
        match table_get(table_view(self.autoload_state@), norm) {
            Some(i) => i as int,
            None => 0,
        }
    }

    /// Whether a name asks for no loading: a relative keyword, or a class
    /// the class index already holds.
    pub open spec fn autoload_skips(&self, name: Seq<char>) -> bool {
        is_relative_keyword(name) || index_entries(self.engine_state.class_map).contains_key(normalized(name))
    }

    /// The stack, its top and the heap once a loader's call has its
    /// `$this` and the class name pushed: the name without leading `\`
    /// is a new string.
    pub open spec fn autoload_call_state(&self, name: Seq<char>, loader: PhpValue) -> (Seq<PhpValue>, int, HeapView) {
        let h = heap(&self.arena);
        let top = self.stack_top as int;
        let s1 = pushed_stack(self.stack@, top, self.loader_context(loader).0);
        let s2 = pushed_stack(s1, top + 1, PhpValue::Str(h.0.len() as usize));
        (s2, top + 2, (h.0.push(trim_backslashes(name)), h.1, h.2, h.3))
    }

    /// What loading a class needs: loaders that can be examined and, when
    /// one is found and a frame is free, a call that can be prepared (see
    /// [`pad_result`]) within the machine's numbers.
    pub open spec fn autoload_ok(&self, name: Seq<char>) -> bool {
        let norm = normalized(name);
        let ls = self.loaders();
        let start = self.autoload_start(norm);
        &&& self.frame_count <= self.frames@.len()
        &&& self.stack_top <= self.stack@.len()
        &&& !self.autoload_skips(name) ==> self.loaders_ok_from(ls, start)
        &&& !self.autoload_skips(name) ==> match self.first_loader_from(ls, start) {
            Some(j) => self.frame_count < self.frames@.len() ==> {
                let f = self.loader_target(ls[j])->0;
                let func = self.engine_state.functions@[f.0 as int];
                let ups = self.loader_upvalues(ls[j]);
                &&& f.0 < self.engine_state.functions@.len()
                &&& value_ok(&self.arena, ls[j])
                &&& self.stack_top + 3 + func.num_locals + func.arity + func.params@.len() + ups.len() <= usize::MAX
                &&& self.stack_top + 2 + func.arity + func.params@.len() < usize::MAX / 4
                &&& pad_result(
                    &self.engine_state,
                    self.autoload_call_state(name, ls[j]),
                    self.stack_top + 1,
                    1,
                    func,
                    ups,
                    false,
                ) is Some
            },
            None => true,
        }
    }

    /// What triggering the loading of class `name` does, from this fibre to
    /// `after` with result `r`. Nothing, with `Ok(false)`, for a relative
    /// keyword or a class already indexed. Otherwise the fibre takes its
    /// copy of the registered loaders if it has none, and the loaders from
    /// the one recorded for the name are tried in turn: the first with a
    /// function to run gets a new frame (`$this`, then the class name
    /// without leading `\` as its argument, prepared as a call of one
    /// argument), marked as an autoloader frame, with `Ok(true)`; the
    /// record for the name moves past the loaders tried. With no frame
    /// free the result is a stack overflow error; with no loader,
    /// `Ok(false)`.
    pub open spec fn autoload_outcome(&self, after: &Fibre, name: Seq<char>, r: Result<bool, String>) -> bool {
        let norm = normalized(name);
        let ls = self.loaders();
        let start = self.autoload_start(norm);
        let found = self.first_loader_from(ls, start);
        let state_after = if start < ls.len() {
            table_set(
                table_view(self.autoload_state@),
                norm,
                match found {
                    Some(j) => (j + 1) as usize,
                    None => ls.len() as usize,
                },
            )
        } else {
            table_view(self.autoload_state@)
        };
        if self.autoload_skips(name) {
            r == Ok::<bool, String>(false) && *after == *self
        } else {
            &&& after.autoloaders@ == ls
            &&& table_view(after.autoload_state@) == state_after
            &&& after.engine_state == self.engine_state
            &&& after.unwind_action == self.unwind_action
            &&& after.dynamic_locals == self.dynamic_locals
            &&& match found {
                None => {
                    &&& r == Ok::<bool, String>(false)
                    &&& after.stack == self.stack
                    &&& after.stack_top == self.stack_top
                    &&& after.frames == self.frames
                    &&& after.frame_count == self.frame_count
                    &&& after.arena == self.arena
                    &&& after.autoload_frame_depths == self.autoload_frame_depths
                },
                Some(j) => if self.frame_count >= self.frames@.len() {
                    &&& r matches Err(m) && m@ == "Stack overflow: max call depth exceeded"@
                    &&& after.stack == self.stack
                    &&& after.stack_top == self.stack_top
                    &&& after.frames == self.frames
                    &&& after.frame_count == self.frame_count
                    &&& after.arena == self.arena
                    &&& after.autoload_frame_depths == self.autoload_frame_depths
                } else {
                    let f = self.loader_target(ls[j])->0;
                    let fc = self.frame_count;
                    &&& r == Ok::<bool, String>(true)
                    &&& after.frame_count == fc + 1
                    &&& after.frames@ == self.frames@.update(
                        fc as int,
                        CallFrame {
                            function: f,
                            ip: 0,
                            stack_window: self.stack_top,
                            called_class_id: self.loader_context(ls[j]).1,
                            arity: 1,
                        },
                    )
                    &&& after.autoload_frame_depths@ == self.autoload_frame_depths@.push(fc)
                    &&& after.arena.closures == self.arena.closures
                    &&& pad_result(
                        &self.engine_state,
                        self.autoload_call_state(name, ls[j]),
                        self.stack_top + 1,
                        1,
                        self.engine_state.functions@[f.0 as int],
                        self.loader_upvalues(ls[j]),
                        false,
                    ) == Some((after.stack@, after.stack_top as int, heap(&after.arena)))
                },
            }
        }
    }
}

fn function_named_exec(fibre: &Fibre, name: &str) -> (r: Option<usize>)
    ensures
        match r {
            Some(i) => fibre.function_named(name@, 0) == Some(i as int) && i < fibre.engine_state.functions@.len(),
            None => fibre.function_named(name@, 0) is None,
        },
{
    let target = to_lowercase(name);
    let fs = &fibre.engine_state.functions;
    let mut i: usize = 0;
    while i < fs.len()
        invariant
            fs == &fibre.engine_state.functions,
            target@ == unicode_lowercase(name@),
            i <= fs@.len(),
            fibre.function_named(name@, 0) == fibre.function_named(name@, i as int),
        decreases fs@.len() - i,
    {
        let l = to_lowercase(fs[i].name.as_str());
        if str_equal(l.as_str(), target.as_str()) {
            return Some(i);
        }
        i = i + 1;
    }
    None
}

fn method_found_exec(e: &EngineState, id: usize, name: &str) -> (r: Option<FunctionPtr>)
    requires
        e.method_lookup(id as int, name@) is Some,
    ensures
        r == method_found(e, id as int, name@),
{
    match e.lookup_method(id, name) {
        Ok(Some(f)) => Some(f),
        _ => None,
    }
}

fn loader_target_exec(fibre: &Fibre, loader: PhpValue) -> (r: Option<FunctionPtr>)
    requires
        fibre.loader_ok(loader),
    ensures
        r == fibre.loader_target(loader),
{
    let a = &fibre.arena;
    let e = &fibre.engine_state;
    match loader {
        PhpValue::Closure(h) => Some(a.closures[h].function_ptr),
        PhpValue::Str(h) => match function_named_exec(fibre, a.strings[h].as_str()) {
            Some(i) => Some(FunctionPtr(i)),
            None => None,
        },
        PhpValue::Array(h) => {
            let arr = &a.arrays[h];
            match (arr.get(ArrayKey::Int(0)), arr.get(ArrayKey::Int(1))) {
                (Some(PhpValue::Str(c)), Some(PhpValue::Str(m))) => {
                    let m_lower = to_lowercase(a.strings[m].as_str());
                    match e.resolve_class_name(a.strings[c].as_str()) {
                        Some(id) => method_found_exec(e, id, m_lower.as_str()),
                        None => None,
                    }
                },
                (Some(PhpValue::Object(o)), Some(PhpValue::Str(m))) => {
                    let m_lower = to_lowercase(a.strings[m].as_str());
                    let id = VM::obj_class_id_loaded(fibre, &a.objects[o]);
                    method_found_exec(e, id, m_lower.as_str())
                },
                _ => None,
            }
        },
        _ => None,
    }
}

fn loader_context_exec(fibre: &Fibre, loader: PhpValue) -> (r: (PhpValue, usize))
    requires
        fibre.loader_ok(loader),
    ensures
        r == fibre.loader_context(loader),
{
    let a = &fibre.arena;
    match loader {
        PhpValue::Array(h) => match a.arrays[h].get(ArrayKey::Int(0)) {
            Some(PhpValue::Object(o)) => (PhpValue::Object(o), VM::obj_class_id_loaded(fibre, &a.objects[o])),
            Some(PhpValue::Str(c)) => (
                PhpValue::Int(0),
                match fibre.engine_state.resolve_class_name(a.strings[c].as_str()) {
                    Some(id) => id,
                    None => 0,
                },
            ),
            _ => (PhpValue::Int(0), 0),
        },
        PhpValue::Closure(h) => {
            let c = &a.closures[h];
            (
                match c.this_val {
                    Some(t) => t,
                    None => loader,
                },
                c.called_class_id,
            )
        },
        _ => (PhpValue::Int(0), 0),
    }
}

fn trim_backslashes_exec(s: &str) -> (r: String)
    ensures
        r@ == trim_backslashes(s@),
{
    let cs = chars_of(s);
    let mut i: usize = 0;
    proof {
        assert(s@.skip(0) =~= s@);
    }
    while i < cs.len() && cs[i] == '\\'
        invariant
            cs@ == s@,
            i <= cs@.len(),
            trim_backslashes(s@) == trim_backslashes(s@.skip(i as int)),
        decreases cs@.len() - i,
    {
        proof {
            assert(s@.skip(i as int).drop_first() =~= s@.skip(i as int + 1));
        }
        i = i + 1;
    }
    let r = string_of(&cs, i, cs.len());
    proof {
        assert(cs@.subrange(i as int, cs@.len() as int) =~= s@.skip(i as int));
    }
    r
}

fn copy_values(v: &Vec<PhpValue>) -> (r: Vec<PhpValue>)
    ensures
        r@ == v@,
{
    let mut out: Vec<PhpValue> = Vec::new();
    let mut i: usize = 0;
    while i < v.len()
        invariant
            i <= v@.len(),
            out@ == v@.take(i as int),
        decreases v@.len() - i,
    {
        out.push(v[i]);
        proof {
            assert(v@.take(i as int + 1) =~= v@.take(i as int).push(v@[i as int]));
        }
        i = i + 1;
    }
    proof {
        assert(v@.take(v@.len() as int) =~= v@);
    }
    out
}

/// Gives the fibre its copy of the registered loaders when it has none.
fn take_loaders(fibre: &mut Fibre)
    ensures
        final(fibre).autoloaders@ == old(fibre).loaders(),
        final(fibre).engine_state == old(fibre).engine_state,
        final(fibre).arena == old(fibre).arena,
        final(fibre).stack == old(fibre).stack,
        final(fibre).stack_top == old(fibre).stack_top,
        final(fibre).frames == old(fibre).frames,
        final(fibre).frame_count == old(fibre).frame_count,
        final(fibre).autoload_frame_depths == old(fibre).autoload_frame_depths,
        final(fibre).unwind_action == old(fibre).unwind_action,
        final(fibre).dynamic_locals == old(fibre).dynamic_locals,
        final(fibre).autoload_state == old(fibre).autoload_state,
{
    if fibre.autoloaders.len() == 0 {
        fibre.autoloaders = copy_values(&fibre.engine_state.autoloaders);
    }
}

proof fn lemma_function_named_same(f1: &Fibre, f2: &Fibre, name: Seq<char>, i: int)
    requires
        f1.engine_state == f2.engine_state,
    ensures
        f1.function_named(name, i) == f2.function_named(name, i),
    decreases f1.engine_state.functions@.len() - i,
{
    if 0 <= i < f1.engine_state.functions@.len() {
        lemma_function_named_same(f1, f2, name, i + 1);
    }
}

impl VM {
    /// Starts loading class `class_name` (see [`Fibre::autoload_outcome`]):
    /// the first registered loader with a function to run gets a frame
    /// that the interpreter then runs; the class is known once it returns.
    pub fn trigger_autoload(fibre: &mut Fibre, class_name: &str) -> (r: Result<bool, String>)
        requires
            old(fibre).autoload_ok(class_name@),
        ensures
            old(fibre).autoload_outcome(&*final(fibre), class_name@, r),
    {
        if is_relative_keyword_exec(class_name) {
            return Ok(false);
        }
        let norm = normalize_name(class_name);
        if index_contains(&fibre.engine_state.class_map, norm.as_str()) {
            return Ok(false);
        }
        let ghost ls = old(fibre).loaders();
        let ghost state0 = table_view(old(fibre).autoload_state@);
        let start = match table_get_exec(&fibre.autoload_state, norm.as_str()) {
            Some(i) => i,
            None => 0,
        };
        assert(start == old(fibre).autoload_start(norm@));
        take_loaders(fibre);
        let n = fibre.autoloaders.len();
        let mut idx = start;
        let mut found: Option<(usize, FunctionPtr)> = None;
        while idx < n && found.is_none()
            invariant
                n == fibre.autoloaders@.len(),
                fibre.autoloaders@ == ls,
                norm@ == normalized(class_name@),
                ls == old(fibre).loaders(),
                state0 == table_view(old(fibre).autoload_state@),
                start == old(fibre).autoload_start(norm@),
                start <= idx,
                idx <= n || idx == start,
                fibre.engine_state == old(fibre).engine_state,
                fibre.arena == old(fibre).arena,
                fibre.stack == old(fibre).stack,
                fibre.stack_top == old(fibre).stack_top,
                fibre.frames == old(fibre).frames,
                fibre.frame_count == old(fibre).frame_count,
                fibre.autoload_frame_depths == old(fibre).autoload_frame_depths,
                fibre.unwind_action == old(fibre).unwind_action,
                fibre.dynamic_locals == old(fibre).dynamic_locals,
                table_view(fibre.autoload_state@) == (if idx > start {
                    table_set(state0, norm@, idx)
                } else {
                    state0
                }),
                found is None ==> old(fibre).first_loader_from(ls, start as int) == old(fibre).first_loader_from(
                    ls,
                    idx as int,
                ) && old(fibre).loaders_ok_from(ls, idx as int),
                found matches Some((j, f)) ==> {
                    &&& old(fibre).first_loader_from(ls, start as int) == Some(j as int)
                    &&& old(fibre).loader_target(ls[j as int]) == Some(f)
                    &&& old(fibre).loader_ok(ls[j as int])
                    &&& idx == j + 1
                    &&& start <= j < n
                },
            decreases n - idx,
        {
            let loader = fibre.autoloaders[idx];
            assert(old(fibre).loader_ok(loader));
            idx = idx + 1;
            let ghost before = table_view(fibre.autoload_state@);
            table_set_exec(&mut fibre.autoload_state, norm.clone(), idx);
            proof {
                if idx - 1 > start {
                    lemma_table_set_twice(state0, norm@, (idx - 1) as usize, idx);
                }
                lemma_function_named_same(&*fibre, &*old(fibre), old(fibre).arena.strings@[match loader {
                    PhpValue::Str(h) => h as int,
                    _ => 0int,
                }]@, 0);
            }
            match loader_target_exec(fibre, loader) {
                Some(f) => {
                    found = Some((idx - 1, f));
                },
                None => {},
            }
        }
        assert(fibre.autoloaders@ == ls);
        match found {
            None => {
                proof {
                    if start < n {
                        assert(idx == n);
                    }
                }
                assert(table_view(fibre.autoload_state@) == (if start < ls.len() { table_set(state0, norm@, ls.len() as usize) } else { state0 }));
                assert(!old(fibre).autoload_skips(class_name@));
                assert(old(fibre).first_loader_from(ls, start as int) is None);
                Ok(false)
            },
            Some((j, f)) => {
                if fibre.frame_count >= fibre.frames.len() {
                    return Err("Stack overflow: max call depth exceeded".to_owned());
                }
                let loader = fibre.autoloaders[j];
                let window = fibre.stack_top;
                let (ctx, cc) = loader_context_exec(fibre, loader);
                push_raw(&mut fibre.stack, &mut fibre.stack_top, ctx);
                let trimmed = trim_backslashes_exec(class_name);
                let arg = alloc_string(&mut fibre.arena, trimmed);
                push_raw(&mut fibre.stack, &mut fibre.stack_top, arg);
                let fc = fibre.frame_count;
                fibre.frames.set(fc, CallFrame { function: f, ip: 0, stack_window: window, called_class_id: cc, arity: 1 });
                fibre.frame_count = fc + 1;
                let ups: Vec<PhpValue> = match loader {
                    PhpValue::Closure(h) => copy_values(&fibre.arena.closures[h].upvalues),
                    _ => Vec::new(),
                };
                assert(ups@ == old(fibre).loader_upvalues(loader));
                assert((fibre.stack@, fibre.stack_top as int, heap(&fibre.arena)) == old(fibre).autoload_call_state(
                    class_name@,
                    loader,
                ));
                Self::pad_missing_arguments_and_locals(fibre, 1, f.0, ups.as_slice(), false);
                fibre.autoload_frame_depths.push(fc);
                Ok(true)
            },
        }
    }
}

} // verus!
