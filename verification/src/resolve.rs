use vstd::prelude::*;
use crate::access::{holds_method, parent_id, walk_fuel};
use crate::classes::{EngineState, FunctionPtr};
use crate::fibre::{Fibre, first_holder_from, holds_exec};
use crate::names::{ascii_lower, chars_of, eq_ignore_ascii_case, str_equal};
use crate::sapi::string_of;
use crate::value::{Arena, PhpValue};
use crate::vm::VM;

verus! {

/// The marker the compiler puts before a name written after `self::`.
pub open spec fn self_marker() -> Seq<char> {
    seq!['s', 'e', 'l', 'f', '\0']
}

/// The marker the compiler puts before a name written after `parent::`.
pub open spec fn parent_marker() -> Seq<char> {
    seq!['p', 'a', 'r', 'e', 'n', 't', '\0']
}

/// The prefix of the names the compiler gives closures.
pub open spec fn closure_prefix() -> Seq<char> {
    seq!['c', 'l', 'o', 's', 'u', 'r', 'e', '#']
}

/// Whether `s` begins with `p`.
pub open spec fn has_prefix(s: Seq<char>, p: Seq<char>) -> bool {
    p.len() <= s.len() && s.take(p.len() as int) == p
}

/// A class name without the `self::` or `parent::` marker it may carry.
pub open spec fn strip_marker(s: Seq<char>) -> Seq<char> {
    if has_prefix(s, self_marker()) {
        s.skip(5)
    } else if has_prefix(s, parent_marker()) {
        s.skip(7)
    } else {
        s
    }
}

/// The index of the last `c` in `s`.
pub open spec fn last_index_of(s: Seq<char>, c: char) -> Option<int>
    decreases s.len(),
{
    if s.len() == 0 {
        None
    } else if s.last() == c {
        Some(s.len() - 1)
    } else {
        last_index_of(s.drop_last(), c)
    }
}

/// The index of the first name at `i` or later equal to `n`.
pub open spec fn position_of(names: Seq<String>, n: Seq<char>, i: int) -> Option<int>
    decreases names.len() - i,
{
    if i < 0 || i >= names.len() {
        None
    } else if names[i]@ == n {
        Some(i)
    } else {
        position_of(names, n, i + 1)
    }
}

/// Whether a value's handle points into the arena.
pub open spec fn value_ok(a: &Arena, v: PhpValue) -> bool {
    match v {
        PhpValue::Str(h) => h < a.strings@.len(),
        PhpValue::Array(h) => h < a.arrays@.len(),
        PhpValue::Object(h) => h < a.objects@.len(),
        PhpValue::Closure(h) => h < a.closures@.len(),
        _ => true,
    }
}

/// Walks the ancestry from class `id` with `fuel` steps and gives the last
/// class on it, counting `acc` as the last one before `id`, that holds
/// `func`. `None` when the walk meets an id that is no class or does not
/// end.
pub open spec fn last_holder_walk(e: &EngineState, id: int, func: FunctionPtr, acc: Option<int>, fuel: nat) -> Option<
    Option<int>,
>
    decreases fuel,
{
    if fuel == 0 || id < 0 || id >= e.classes@.len() {
        None
    } else {
        let acc2 = if holds_method(e.classes@[id], func) {
            Some(id)
        } else {
            acc
        };
        match parent_id(e, id) {
            None => Some(acc2),
            Some(p) => last_holder_walk(e, p, func, acc2, (fuel - 1) as nat),
        }
    }
}

impl Fibre {
    /// Every value on the stack holds a handle into the arena.
    pub open spec fn stack_handles_ok(&self) -> bool {
        forall|i: int| 0 <= i < self.stack@.len() ==> value_ok(&self.arena, #[trigger] self.stack@[i])
    }

    /// The frames in use run functions that exist.
    pub open spec fn frame_functions_ok(&self) -> bool {
        &&& self.frame_count <= self.frames@.len()
        &&& forall|i: int|
            0 <= i < self.frame_count ==> (#[trigger] self.frames@[i]).function.0 < self.engine_state.functions@.len()
    }

    /// The class name a variable's value stands for: an object's class (by
    /// its name, else by its id), or a string itself.
    pub open spec fn value_class_name(&self, v: PhpValue) -> Option<Seq<char>> {
        match v {
            PhpValue::Object(h) => {
                let o = self.arena.objects@[h as int];
                match o.class_name {
                    Some(n) => Some(n@),
                    None => if o.class_id < self.engine_state.classes@.len() {
                        Some(self.engine_state.classes@[o.class_id as int].name@)
                    } else {
                        None
                    },
                }
            },
            PhpValue::Str(h) => Some(self.arena.strings@[h as int]@),
            _ => None,
        }
    }

    /// The slot of the current frame's local called `var`.
    pub open spec fn local_slot(&self, var: Seq<char>) -> Option<int> {
        if self.frame_count == 0 {
            None
        } else {
            let fr = self.frames@[self.frame_count - 1];
            match position_of(self.engine_state.functions@[fr.function.0 as int].chunk.local_names@, var, 0) {
                Some(p) => Some(fr.stack_window + p),
                None => None,
            }
        }
    }

    /// The class name the current frame's local `var` stands for.
    pub open spec fn variable_class(&self, var: Seq<char>) -> Option<Seq<char>> {
        match self.local_slot(var) {
            Some(slot) => self.value_class_name(self.stack@[slot]),
            None => None,
        }
    }

    /// The class `self` names: the first class holding the current
    /// function, else the current frame's class.
    pub open spec fn self_class(&self) -> Option<Seq<char>> {
        let classes = self.engine_state.classes@;
        let fr = self.frames@[self.frame_count - 1];
        match first_holder_from(classes, fr.function, 0) {
            Some(i) => Some(classes[i].name@),
            None => if fr.called_class_id < classes.len() {
                Some(classes[fr.called_class_id as int].name@)
            } else {
                None
            },
        }
    }

    /// The topmost of the first `i` frames whose function is no closure.
    pub open spec fn active_frame_from(&self, i: int) -> Option<int>
        decreases i,
    {
        if i <= 0 {
            None
        } else if !has_prefix(self.engine_state.functions@[self.frames@[i - 1].function.0 as int].name@, closure_prefix()) {
            Some(i - 1)
        } else {
            self.active_frame_from(i - 1)
        }
    }

    /// The method running in the nearest frame that is no closure, and the
    /// class it was called for.
    pub open spec fn active_method(&self) -> (FunctionPtr, usize) {
        let top = self.frames@[self.frame_count - 1];
        match self.active_frame_from(self.frame_count as int) {
            Some(i) => (
                self.frames@[i].function,
                if self.frames@[i].called_class_id > 0 {
                    self.frames@[i].called_class_id
                } else {
                    top.called_class_id
                },
            ),
            None => (top.function, top.called_class_id),
        }
    }

    /// Where the walk for `parent` starts: the called class when it exists,
    /// else the first class holding the active method.
    pub open spec fn parent_walk_start(&self) -> Option<int> {
        let (active, called) = self.active_method();
        if called < self.engine_state.classes@.len() {
            Some(called as int)
        } else {
            first_holder_from(self.engine_state.classes@, active, 0)
        }
    }

    /// The walk for `parent` from its start.
    pub open spec fn parent_walk(&self) -> Option<Option<int>> {
        match self.parent_walk_start() {
            Some(s) => last_holder_walk(&self.engine_state, s, self.active_method().0, None, walk_fuel(&self.engine_state)),
            None => Some(None),
        }
    }

    /// The class `parent` names: the parent of the topmost class up the
    /// ancestry that declares the active method, else that of the first
    /// class holding it.
    pub open spec fn parent_class(&self) -> Option<Seq<char>> {
        let classes = self.engine_state.classes@;
        let declared = match self.parent_walk() {
            Some(Some(d)) => match classes[d].extends {
                Some(p) => Some(p@),
                None => None,
            },
            _ => None,
        };
        match declared {
            Some(p) => Some(p),
            None => match first_holder_from(classes, self.active_method().0, 0) {
                Some(h) => match classes[h].extends {
                    Some(p) => Some(p@),
                    None => None,
                },
                None => None,
            },
        }
    }

    /// The class `static` names.
    pub open spec fn static_class(&self) -> Option<Seq<char>> {
        let id = self.current_called_class();
        if 0 <= id < self.engine_state.classes@.len() {
            Some(self.engine_state.classes@[id].name@)
        } else {
            None
        }
    }

    /// The name after the last `$` of a class name, if there is one.
    pub open spec fn variable_part(s: Seq<char>) -> Option<Seq<char>> {
        match last_index_of(s, '$') {
            Some(p) => Some(s.skip(p + 1)),
            None => None,
        }
    }

    /// What the keyword `self`, `parent` or `static` (in any ASCII case)
    /// stands for; `None` for another name or when it resolves to nothing.
    pub open spec fn keyword_class(&self, s: Seq<char>) -> Option<Seq<char>> {
        if ascii_lower(s) == ascii_lower(seq!['s', 'e', 'l', 'f']) {
            self.self_class()
        } else if ascii_lower(s) == ascii_lower(seq!['p', 'a', 'r', 'e', 'n', 't']) {
            self.parent_class()
        } else if ascii_lower(s) == ascii_lower(seq!['s', 't', 'a', 't', 'i', 'c']) {
            self.static_class()
        } else {
            None
        }
    }

    /// The class a name written in code resolves to at run time: after its
    /// marker is dropped, the class of the variable it ends with (`$name`),
    /// else what `self`, `parent` or `static` stands for, else the name
    /// without one leading `\`.
    pub open spec fn resolved_class_name(&self, name: Seq<char>) -> Seq<char> {
        let s = strip_marker(name);
        let via_var = match Self::variable_part(s) {
            Some(v) => self.variable_class(v),
            None => None,
        };
        match via_var {
            Some(n) => n,
            None => match self.keyword_class(s) {
                Some(n) => n,
                None => if s.len() > 0 && s[0] == '\\' {
                    s.skip(1)
                } else {
                    s
                },
            },
        }
    }

    /// What resolving `name` needs of the fibre to be defined: the slot of a
    /// named variable on the stack, a frame for `self` and `parent`, and an
    /// ancestry walk for `parent` that ends.
    pub open spec fn resolvable(&self, name: Seq<char>) -> bool {
        let s = strip_marker(name);
        &&& (match Self::variable_part(s) {
            Some(v) => match self.local_slot(v) {
                Some(slot) => slot < self.stack@.len(),
                None => true,
            },
            None => true,
        })
        &&& (ascii_lower(s) == ascii_lower(seq!['s', 'e', 'l', 'f']) || ascii_lower(s) == ascii_lower(
            seq!['p', 'a', 'r', 'e', 'n', 't'],
        )) ==> self.frame_count >= 1
        &&& ascii_lower(s) == ascii_lower(seq!['p', 'a', 'r', 'e', 'n', 't']) ==> self.parent_walk() is Some
    }
}

/// Whether `s` begins with `p`.
fn starts_with_chars(s: &Vec<char>, p: &Vec<char>) -> (r: bool)
    ensures
        r == has_prefix(s@, p@),
{
    if p.len() > s.len() {
        return false;
    }
    let mut i: usize = 0;
    while i < p.len()
        invariant
            p@.len() <= s@.len(),
            i <= p@.len(),
            forall|j: int| 0 <= j < i ==> s@[j] == p@[j],
        decreases p@.len() - i,
    {
        if s[i] != p[i] {
            proof {
                assert(s@.take(p@.len() as int)[i as int] != p@[i as int]);
            }
            return false;
        }
        i = i + 1;
    }
    proof {
        assert(s@.take(p@.len() as int) =~= p@);
    }
    true
}

fn strip_marker_exec(cs: &Vec<char>) -> (r: Vec<char>)
    ensures
        r@ == strip_marker(cs@),
{
    let self_m: Vec<char> = vec!['s', 'e', 'l', 'f', '\0'];
    let parent_m: Vec<char> = vec!['p', 'a', 'r', 'e', 'n', 't', '\0'];
    assert(self_m@ =~= self_marker());
    assert(parent_m@ =~= parent_marker());
    let from: usize = if starts_with_chars(cs, &self_m) {
        5
    } else if starts_with_chars(cs, &parent_m) {
        7
    } else {
        0
    };
    let mut out: Vec<char> = Vec::new();
    let mut k = from;
    while k < cs.len()
        invariant
            from <= k <= cs@.len() || (k == from && cs@.len() < from),
            from <= cs@.len(),
            out@ == cs@.subrange(from as int, k as int),
        decreases cs@.len() - k,
    {
        out.push(cs[k]);
        proof {
            assert(cs@.subrange(from as int, k as int + 1) =~= cs@.subrange(from as int, k as int).push(cs@[k as int]));
        }
        k = k + 1;
    }
    proof {
        assert(out@ =~= cs@.skip(from as int));
    }
    out
}

fn last_index_of_exec(cs: &Vec<char>, c: char) -> (r: Option<usize>)
    ensures
        match r {
            Some(p) => last_index_of(cs@, c) == Some(p as int) && p < cs@.len(),
            None => last_index_of(cs@, c) is None,
        },
{
    let mut i: usize = cs.len();
    proof {
        assert(cs@.take(cs@.len() as int) =~= cs@);
    }
    while i > 0
        invariant
            i <= cs@.len(),
            last_index_of(cs@, c) == last_index_of(cs@.take(i as int), c),
        decreases i,
    {
        proof {
            assert(cs@.take(i as int).drop_last() =~= cs@.take(i as int - 1));
        }
        if cs[i - 1] == c {
            return Some(i - 1);
        }
        i = i - 1;
    }
    None
}

fn position_of_exec(names: &Vec<String>, n: &str) -> (r: Option<usize>)
    ensures
        match r {
            Some(p) => position_of(names@, n@, 0) == Some(p as int) && p < names@.len(),
            None => position_of(names@, n@, 0) is None,
        },
{
    let mut i: usize = 0;
    while i < names.len()
        invariant
            i <= names@.len(),
            position_of(names@, n@, 0) == position_of(names@, n@, i as int),
        decreases names@.len() - i,
    {
        if str_equal(names[i].as_str(), n) {
            return Some(i);
        }
        i = i + 1;
    }
    None
}

fn first_holder(e: &EngineState, func: FunctionPtr) -> (r: Option<usize>)
    ensures
        match r {
            Some(i) => first_holder_from(e.classes@, func, 0) == Some(i as int) && i < e.classes@.len(),
            None => first_holder_from(e.classes@, func, 0) is None,
        },
{
    let mut j: usize = 0;
    while j < e.classes.len()
        invariant
            j <= e.classes@.len(),
            first_holder_from(e.classes@, func, 0) == first_holder_from(e.classes@, func, j as int),
        decreases e.classes@.len() - j,
    {
        if holds_exec(&e.classes[j], func) {
            return Some(j);
        }
        j = j + 1;
    }
    None
}

fn variable_class_exec(fibre: &Fibre, var: &str) -> (r: Option<String>)
    requires
        fibre.frame_functions_ok(),
        fibre.stack_handles_ok(),
        match fibre.local_slot(var@) {
            Some(slot) => slot < fibre.stack@.len(),
            None => true,
        },
    ensures
        opt_view(r) == fibre.variable_class(var@),
{
    if fibre.frame_count == 0 {
        return None;
    }
    let fr = fibre.frames[fibre.frame_count - 1];
    assert(fibre.frames@[fibre.frame_count - 1].function.0 < fibre.engine_state.functions@.len());
    let func = &fibre.engine_state.functions[fr.function.0];
    match position_of_exec(&func.chunk.local_names, var) {
        None => None,
        Some(p) => {
            assert(fibre.local_slot(var@) == Some(fr.stack_window + p));
            let stack_len = fibre.stack.len();
            assert(fr.stack_window + p < stack_len);
            let slot = fr.stack_window + p;
            let v = fibre.stack[slot];
            assert(value_ok(&fibre.arena, fibre.stack@[slot as int]));
            match v {
                PhpValue::Object(h) => {
                    let o = &fibre.arena.objects[h];
                    match &o.class_name {
                        Some(n) => Some(n.clone()),
                        None => if o.class_id < fibre.engine_state.classes.len() {
                            Some(fibre.engine_state.classes[o.class_id].name.clone())
                        } else {
                            None
                        },
                    }
                },
                PhpValue::Str(h) => Some(fibre.arena.strings[h].clone()),
                _ => None,
            }
        },
    }
}

/// The view of an optional string.
pub open spec fn opt_view(o: Option<String>) -> Option<Seq<char>> {
    match o {
        Some(s) => Some(s@),
        None => None,
    }
}

fn self_class_exec(fibre: &Fibre) -> (r: Option<String>)
    requires
        1 <= fibre.frame_count <= fibre.frames@.len(),
    ensures
        opt_view(r) == fibre.self_class(),
{
    let fr = fibre.frames[fibre.frame_count - 1];
    let classes = &fibre.engine_state.classes;
    match first_holder(&fibre.engine_state, fr.function) {
        Some(i) => Some(classes[i].name.clone()),
        None => if fr.called_class_id < classes.len() {
            Some(classes[fr.called_class_id].name.clone())
        } else {
            None
        },
    }
}

fn active_method_exec(fibre: &Fibre) -> (r: (FunctionPtr, usize))
    requires
        fibre.frame_functions_ok(),
        fibre.frame_count >= 1,
    ensures
        r == fibre.active_method(),
{
    let fc = fibre.frame_count;
    let top = fibre.frames[fc - 1];
    let closure_p: Vec<char> = vec!['c', 'l', 'o', 's', 'u', 'r', 'e', '#'];
    assert(closure_p@ =~= closure_prefix());
    let mut i: usize = fc;
    while i > 0
        invariant
            fibre.frame_functions_ok(),
            i <= fc == fibre.frame_count,
            fc >= 1,
            top == fibre.frames@[fc - 1],
            closure_p@ == closure_prefix(),
            fibre.active_frame_from(fc as int) == fibre.active_frame_from(i as int),
        decreases i,
    {
        let f = fibre.frames[i - 1];
        assert(fibre.frames@[i - 1].function.0 < fibre.engine_state.functions@.len());
        let name_cs = chars_of(fibre.engine_state.functions[f.function.0].name.as_str());
        if !starts_with_chars(&name_cs, &closure_p) {
            let called = if f.called_class_id > 0 {
                f.called_class_id
            } else {
                top.called_class_id
            };
            return (f.function, called);
        }
        i = i - 1;
    }
    (top.function, top.called_class_id)
}

fn parent_walk_exec(fibre: &Fibre, start: usize, active: FunctionPtr) -> (r: Option<usize>)
    requires
        last_holder_walk(&fibre.engine_state, start as int, active, None, walk_fuel(&fibre.engine_state)) is Some,
    ensures
        last_holder_walk(&fibre.engine_state, start as int, active, None, walk_fuel(&fibre.engine_state)) == Some(
            match r {
                Some(d) => Some(d as int),
                None => None::<int>,
            },
        ),
        r matches Some(d) ==> d < fibre.engine_state.classes@.len(),
{
    let e = &fibre.engine_state;
    let ghost total = last_holder_walk(e, start as int, active, None, walk_fuel(e));
    let mut cur: usize = start;
    let mut acc: Option<usize> = None;
    let ghost mut fuel: nat = walk_fuel(e);
    loop
        invariant
            e == &fibre.engine_state,
            fuel <= walk_fuel(e),
            total == last_holder_walk(e, start as int, active, None, walk_fuel(e)),
            total is Some,
            total == last_holder_walk(
                e,
                cur as int,
                active,
                match acc {
                    Some(d) => Some(d as int),
                    None => None::<int>,
                },
                fuel,
            ),
            acc matches Some(d) ==> d < e.classes@.len(),
        decreases fuel,
    {
        assert(fuel > 0 && cur < e.classes@.len());
        let c = &e.classes[cur];
        if holds_exec(c, active) {
            acc = Some(cur);
        }
        match &c.extends {
            None => {
                return acc;
            },
            Some(p) => match e.resolve_class_name(p.as_str()) {
                None => {
                    return acc;
                },
                Some(pid) => {
                    cur = pid;
                    proof {
                        fuel = (fuel - 1) as nat;
                    }
                },
            },
        }
    }
}

fn parent_class_exec(fibre: &Fibre) -> (r: Option<String>)
    requires
        fibre.frame_functions_ok(),
        fibre.frame_count >= 1,
        fibre.parent_walk() is Some,
    ensures
        opt_view(r) == fibre.parent_class(),
{
    let e = &fibre.engine_state;
    let classes = &e.classes;
    let (active, called) = active_method_exec(fibre);
    let start = if called < classes.len() {
        Some(called)
    } else {
        first_holder(e, active)
    };
    let declaring = match start {
        Some(s) => parent_walk_exec(fibre, s, active),
        None => None,
    };
    match declaring {
        Some(d) => match &classes[d].extends {
            Some(p) => {
                return Some(p.clone());
            },
            None => {},
        },
        None => {},
    }
    match first_holder(e, active) {
        Some(h) => match &classes[h].extends {
            Some(p) => Some(p.clone()),
            None => None,
        },
        None => None,
    }
}

impl VM {
    /// Resolves a class name written in code at run time (see
    /// [`Fibre::resolved_class_name`]): a `$variable` gives its value's
    /// class, `self`, `parent` and `static` the classes they stand for in
    /// the current frame.
    pub fn resolve_dynamic_class_name(fibre: &Fibre, class_name: &str) -> (r: String)
        requires
            fibre.frames_ok(),
            fibre.frame_functions_ok(),
            fibre.stack_handles_ok(),
            fibre.resolvable(class_name@),
        ensures
            r@ == fibre.resolved_class_name(class_name@),
    {
        let all = chars_of(class_name);
        let cs = strip_marker_exec(&all);
        let s = string_of(&cs, 0, cs.len());
        proof {
            assert(cs@.subrange(0, cs@.len() as int) =~= cs@);
        }
        match last_index_of_exec(&cs, '$') {
            Some(p) => {
                let var = string_of(&cs, p + 1, cs.len());
                proof {
                    assert(cs@.subrange(p + 1, cs@.len() as int) =~= cs@.skip(p + 1));
                }
                match variable_class_exec(fibre, var.as_str()) {
                    Some(n) => {
                        return n;
                    },
                    None => {},
                }
            },
            None => {},
        }
        let kw = if eq_ignore_ascii_case(s.as_str(), "self") {
            proof {
                reveal_strlit("self");
                assert("self"@ =~= seq!['s', 'e', 'l', 'f']);
            }
            self_class_exec(fibre)
        } else if eq_ignore_ascii_case(s.as_str(), "parent") {
            proof {
                reveal_strlit("self");
                reveal_strlit("parent");
                assert("self"@ =~= seq!['s', 'e', 'l', 'f']);
                assert("parent"@ =~= seq!['p', 'a', 'r', 'e', 'n', 't']);
            }
            parent_class_exec(fibre)
        } else if eq_ignore_ascii_case(s.as_str(), "static") {
            proof {
                reveal_strlit("self");
                reveal_strlit("parent");
                reveal_strlit("static");
                assert("self"@ =~= seq!['s', 'e', 'l', 'f']);
                assert("parent"@ =~= seq!['p', 'a', 'r', 'e', 'n', 't']);
                assert("static"@ =~= seq!['s', 't', 'a', 't', 'i', 'c']);
            }
            let id = Self::get_current_called_class_id(fibre);
            if id < fibre.engine_state.classes.len() {
                Some(fibre.engine_state.classes[id].name.clone())
            } else {
                None
            }
        } else {
            proof {
                reveal_strlit("self");
                reveal_strlit("parent");
                reveal_strlit("static");
                assert("self"@ =~= seq!['s', 'e', 'l', 'f']);
                assert("parent"@ =~= seq!['p', 'a', 'r', 'e', 'n', 't']);
                assert("static"@ =~= seq!['s', 't', 'a', 't', 'i', 'c']);
            }
            None
        };
        match kw {
            Some(n) => n,
            None => if cs.len() > 0 && cs[0] == '\\' {
                let t = string_of(&cs, 1, cs.len());
                proof {
                    assert(cs@.subrange(1, cs@.len() as int) =~= cs@.skip(1));
                }
                t
            } else {
                s
            },
        }
    }
}

} // verus!
