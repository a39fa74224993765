use vstd::prelude::*;
use crate::autoload::method_found;
use crate::fibre::Fibre;
use crate::names::str_equal;
use crate::sync::CallMark;
use crate::value::{PhpObject, PhpValue};
use crate::vm::VM;

verus! {

/// What `foreach` does next with its source value.
#[derive(PartialEq, Eq, Structural, Debug)]
pub enum IterableStep {
    /// Walk this value: an array, an iterator, a generator or a plain
    /// object's properties.
    Walk(PhpValue),
    /// Call the value's `getIterator()` and resolve what it returns.
    GetIterator,
}

/// How to advance an `Iterator` object one step: whether to call its
/// positioning method first (`rewind()` on the first step, `next()` after),
/// which the class may lack, and whether to then ask `valid()`; without
/// `valid()` the iterator has no element.
#[derive(PartialEq, Eq, Structural, Debug)]
pub struct IteratorStep {
    pub call_position: bool,
    pub check_valid: bool,
}

/// The number of `getIterator()` calls after which resolving a `foreach`
/// source gives up.
pub const MAX_ITERATOR_UNWRAP: usize = 16;

impl Fibre {
    /// Whether class `cid` declares or inherits method `name` (the lookup
    /// ends and finds a function).
    pub open spec fn has_method(&self, cid: usize, name: Seq<char>) -> bool {
        method_found(&self.engine_state, cid as int, name) is Some
    }

    /// The method lookups of class `cid` for each of `names` end.
    pub open spec fn lookups_end(&self, cid: usize, names: Seq<Seq<char>>) -> bool {
        forall|i: int| 0 <= i < names.len() ==> (#[trigger] self.engine_state.method_lookup(cid as int, names[i])) is Some
    }

    /// The class of the object a value holds.
    pub open spec fn class_of_value(&self, v: PhpValue) -> usize {
        self.obj_class_id(self.arena.objects@[v->Object_0 as int])
    }

    /// What `foreach` does with `v`: a value that is no object, an object
    /// of class `Generator`, one whose class has `current()` and one whose
    /// class has neither that nor `getIterator()` are walked; otherwise its
    /// `getIterator()` is called.
    pub open spec fn iterable_step(&self, v: PhpValue) -> IterableStep {
        match v {
            PhpValue::Object(h) => {
                let cid = self.class_of_value(v);
                let cs = self.engine_state.classes@;
                if (cid < cs.len() && cs[cid as int].name@ == "Generator"@) || self.has_method(cid, "current"@) {
                    IterableStep::Walk(v)
                } else if self.has_method(cid, "getIterator"@) {
                    IterableStep::GetIterator
                } else {
                    IterableStep::Walk(v)
                }
            },
            _ => IterableStep::Walk(v),
        }
    }

    /// What resolving a `foreach` source reads: an object in the heap whose
    /// class's lookups of `current` and `getIterator` end.
    pub open spec fn iterable_ok(&self, v: PhpValue) -> bool {
        v matches PhpValue::Object(h) ==> {
            &&& h < self.arena.objects@.len()
            &&& self.lookups_end(self.class_of_value(v), seq!["current"@, "getIterator"@])
        }
    }
}

fn method_exists(fibre: &Fibre, cid: usize, name: &str) -> (r: bool)
    requires
        fibre.engine_state.method_lookup(cid as int, name@) is Some,
    ensures
        r == fibre.has_method(cid, name@),
{
    match fibre.engine_state.lookup_method(cid, name) {
        Ok(Some(_)) => true,
        _ => false,
    }
}

impl VM {
    /// One round of resolving what `foreach` walks, after `round` calls of
    /// `getIterator()`: an error once there have been
    /// [`MAX_ITERATOR_UNWRAP`] of them, else what to do with `current`
    /// (see [`Fibre::iterable_step`]). The caller makes the call asked for
    /// and resolves its result in the next round.
    pub fn resolve_iterable_step(fibre: &Fibre, current: PhpValue, round: usize) -> (r: Result<IterableStep, String>)
        requires
            round < MAX_ITERATOR_UNWRAP ==> fibre.iterable_ok(current),
        ensures
            round >= MAX_ITERATOR_UNWRAP ==> (r matches Err(m) && m@
                == "getIterator() nested too deeply while resolving a foreach source"@),
            round < MAX_ITERATOR_UNWRAP ==> r == Ok::<IterableStep, String>(fibre.iterable_step(current)),
    {
        if round >= MAX_ITERATOR_UNWRAP {
            return Err("getIterator() nested too deeply while resolving a foreach source".to_owned());
        }
        match current {
            PhpValue::Object(h) => {
                proof {
                    assert(fibre.engine_state.method_lookup(fibre.class_of_value(current) as int, seq!["current"@, "getIterator"@][0]) is Some);
                    assert(fibre.engine_state.method_lookup(fibre.class_of_value(current) as int, seq!["current"@, "getIterator"@][1]) is Some);
                }
                let cid = Self::obj_class_id_loaded(fibre, &fibre.arena.objects[h]);
                let classes = &fibre.engine_state.classes;
                let is_generator = cid < classes.len() && str_equal(classes[cid].name.as_str(), "Generator");
                if is_generator || method_exists(fibre, cid, "current") {
                    return Ok(IterableStep::Walk(current));
                }
                if method_exists(fibre, cid, "getIterator") {
                    return Ok(IterableStep::GetIterator);
                }
                Ok(IterableStep::Walk(current))
            },
            _ => Ok(IterableStep::Walk(current)),
        }
    }
}

/// The name of the method that positions an iterator: `rewind` on the
/// first step, `next` after.
pub open spec fn position_method(first: bool) -> Seq<char> {
    if first {
        "rewind"@
    } else {
        "next"@
    }
}

impl VM {
    /// How to advance the `Iterator` object `obj_val` one step (see
    /// [`IteratorStep`]); an error when it is no object. The caller makes
    /// the calls; the step has an element when `valid()` gives a true value
    /// (see [`crate::value::is_truthy`]).
    pub fn iterator_plan(fibre: &Fibre, obj_val: PhpValue, first: bool) -> (r: Result<IteratorStep, String>)
        requires
            obj_val matches PhpValue::Object(h) ==> {
                &&& h < fibre.arena.objects@.len()
                &&& fibre.lookups_end(fibre.class_of_value(obj_val), seq![position_method(first), "valid"@])
            },
        ensures
            match obj_val {
                PhpValue::Object(_) => {
                    let cid = fibre.class_of_value(obj_val);
                    r == Ok::<IteratorStep, String>(
                        IteratorStep {
                            call_position: fibre.has_method(cid, position_method(first)),
                            check_valid: fibre.has_method(cid, "valid"@),
                        },
                    )
                },
                _ => r matches Err(m) && m@ == "foreach source is not an object"@,
            },
    {
        let method = if first {
            "rewind"
        } else {
            "next"
        };
        let h = match obj_val {
            PhpValue::Object(h) => h,
            _ => {
                return Err("foreach source is not an object".to_owned());
            },
        };
        let cid = Self::obj_class_id_loaded(fibre, &fibre.arena.objects[h]);
        proof {
            assert(method@ == position_method(first));
            let names = seq![position_method(first), "valid"@];
            assert(fibre.engine_state.method_lookup(cid as int, names[0]) is Some);
            assert(fibre.engine_state.method_lookup(cid as int, names[1]) is Some);
        }
        let call_position = method_exists(fibre, cid, method);
        let check_valid = method_exists(fibre, cid, "valid");
        Ok(IteratorStep { call_position, check_valid })
    }
}

/// What a method call a loop below makes gives: the fibre after it, and the
/// call's value or the error it ended with.
pub type CallOutcome = (Fibre, Result<PhpValue, String>);

/// What the loops below ask of `call`, which calls a method (by name,
/// without arguments) on an object synchronously: it can always be called;
/// a value it gives is in the heap and, when it is an object, one whose
/// `current` and `getIterator` lookups end; and lookups that ended before
/// it still end after it.
pub open spec fn call_ok<F: Fn(Fibre, PhpValue, String) -> CallOutcome>(call: F) -> bool {
    &&& forall|f: Fibre, v: PhpValue, n: String| #[trigger] call_requires(call, (f, v, n))
    &&& forall|f: Fibre, v: PhpValue, n: String, out: CallOutcome|
        #[trigger] call_ensures(call, (f, v, n), out) ==> (out.1 matches Ok(w) ==> out.0.iterable_ok(w)
            && crate::value::data_handle_ok(&out.0.arena, w))
    &&& forall|f: Fibre, v: PhpValue, n: String, out: CallOutcome, cid: int, m: Seq<char>|
        #[trigger] call_ensures(call, (f, v, n), out) && f.engine_state.method_lookup(cid, m) is Some
            ==> #[trigger] out.0.engine_state.method_lookup(cid, m) is Some
}

impl Fibre {
    /// Resolving `current` for `foreach` from this fibre, after `round`
    /// calls of `getIterator()` made through `call`, ends in `after` with
    /// `r`: an error once there have been [`MAX_ITERATOR_UNWRAP`] calls;
    /// a value to walk (see [`Fibre::iterable_step`]) is the result; else
    /// `getIterator()` is called, its error is the result, and what it
    /// returns is resolved in turn.
    pub open spec fn resolved<F: Fn(Fibre, PhpValue, String) -> CallOutcome>(
        &self,
        current: PhpValue,
        round: nat,
        call: F,
        r: Result<PhpValue, String>,
        after: Fibre,
    ) -> bool
        decreases MAX_ITERATOR_UNWRAP - round,
    {
        if round >= MAX_ITERATOR_UNWRAP {
            &&& after == *self
            &&& r matches Err(m) && m@ == "getIterator() nested too deeply while resolving a foreach source"@
        } else {
            match self.iterable_step(current) {
                IterableStep::Walk(v) => r == Ok::<PhpValue, String>(v) && after == *self,
                IterableStep::GetIterator => exists|n: String, out: CallOutcome|
                    #[trigger] call_ensures(call, (*self, current, n), out) && n@ == "getIterator"@ && match out.1 {
                        Err(m) => r == Err::<PhpValue, String>(m) && after == out.0,
                        Ok(v) => out.0.resolved(v, round + 1, call, r, after),
                    },
            }
        }
    }

    /// The end of an iterator step from this fibre: without `valid()` on
    /// class `cid` the iterator has no element; otherwise `valid()` is
    /// called on `obj` and its value's truth is the answer (or its error).
    pub open spec fn valid_checked<F: Fn(Fibre, PhpValue, String) -> CallOutcome>(
        &self,
        obj: PhpValue,
        cid: usize,
        call: F,
        r: Result<bool, String>,
        after: Fibre,
    ) -> bool {
        if !self.has_method(cid, "valid"@) {
            r == Ok::<bool, String>(false) && after == *self
        } else {
            exists|n: String, out: CallOutcome|
                #[trigger] call_ensures(call, (*self, obj, n), out) && n@ == "valid"@ && after == out.0 && match out.1 {
                    Err(m) => r == Err::<bool, String>(m),
                    Ok(v) => r == Ok::<bool, String>(crate::value::truthy(&out.0.arena, v)),
                }
        }
    }

    /// One step of an `Iterator` object `obj` from this fibre, through
    /// `call`: an error when it is no object; else, with `cid` its class,
    /// `rewind()` (on the first step) or `next()` is called when the class
    /// has it, an error of the call being the result, and then `valid()`
    /// decides (see [`Fibre::valid_checked`]).
    pub open spec fn iterator_stepped<F: Fn(Fibre, PhpValue, String) -> CallOutcome>(
        &self,
        obj: PhpValue,
        first: bool,
        call: F,
        r: Result<bool, String>,
        after: Fibre,
    ) -> bool {
        match obj {
            PhpValue::Object(_) => {
                let cid = self.class_of_value(obj);
                if self.has_method(cid, position_method(first)) {
                    exists|n: String, out: CallOutcome|
                        #[trigger] call_ensures(call, (*self, obj, n), out) && n@ == position_method(first) && match out.1 {
                            Err(m) => r == Err::<bool, String>(m) && after == out.0,
                            Ok(_) => out.0.valid_checked(obj, cid, call, r, after),
                        }
                } else {
                    self.valid_checked(obj, cid, call, r, after)
                }
            },
            _ => {
                &&& after == *self
                &&& r matches Err(m) && m@ == "foreach source is not an object"@
            },
        }
    }
}

impl VM {
    /// Resolves what `foreach` walks from `val` (see [`Fibre::resolved`]):
    /// while the value is an object to unwrap, its `getIterator()` is
    /// called through `call` (see [`VM::call_method_synchronously`]), at
    /// most [`MAX_ITERATOR_UNWRAP`] times.
    pub fn resolve_iterable<F: Fn(Fibre, PhpValue, String) -> CallOutcome>(
        fibre: Fibre,
        val: PhpValue,
        call: F,
    ) -> (r: CallOutcome)
        requires
            fibre.iterable_ok(val),
            call_ok(call),
        ensures
            fibre.resolved(val, 0, call, r.1, r.0),
    {
        let ghost start = fibre;
        let mut fb = fibre;
        let mut current = val;
        let mut round: usize = 0;
        loop
            invariant
                start == fibre,
                round <= MAX_ITERATOR_UNWRAP,
                round < MAX_ITERATOR_UNWRAP ==> fb.iterable_ok(current),
                call_ok(call),
                forall|r: Result<PhpValue, String>, after: Fibre|
                    #[trigger] fb.resolved(current, round as nat, call, r, after) ==> start.resolved(
                        val,
                        0,
                        call,
                        r,
                        after,
                    ),
            decreases MAX_ITERATOR_UNWRAP - round,
        {
            let ghost cur = fb;
            match Self::resolve_iterable_step(&fb, current, round) {
                Err(m) => {
                    assert(cur.resolved(current, round as nat, call, Err::<PhpValue, String>(m), fb));
                    return (fb, Err(m));
                },
                Ok(IterableStep::Walk(v)) => {
                    assert(cur.resolved(current, round as nat, call, Ok::<PhpValue, String>(v), fb));
                    return (fb, Ok(v));
                },
                Ok(IterableStep::GetIterator) => {
                    let n = "getIterator".to_owned();
                    let ghost gn = n;
                    let (f2, res) = call(fb, current, n);
                    let ghost out: CallOutcome = (f2, res);
                    fb = f2;
                    match res {
                        Err(m) => {
                            assert(call_ensures(call, (cur, current, gn), out));
                            assert(cur.resolved(current, round as nat, call, Err::<PhpValue, String>(m), fb));
                            return (fb, Err(m));
                        },
                        Ok(v) => {
                            let ghost prev = current;
                            let ghost pround = round;
                            current = v;
                            round = round + 1;
                            proof {
                                assert forall|r: Result<PhpValue, String>, after: Fibre|
                                    #[trigger] fb.resolved(current, round as nat, call, r, after) implies cur.resolved(
                                    prev,
                                    pround as nat,
                                    call,
                                    r,
                                    after,
                                ) by {
                                    assert(call_ensures(call, (cur, prev, gn), out));
                                }
                            }
                        },
                    }
                },
            }
        }
    }

    /// Advances the `Iterator` object `obj_val` one step (see
    /// [`Fibre::iterator_stepped`]): its `rewind()` or `next()` and then
    /// its `valid()` are called through `call` (see
    /// [`VM::call_method_synchronously`]); whether it has an element comes
    /// back.
    pub fn iterator_step<F: Fn(Fibre, PhpValue, String) -> CallOutcome>(
        fibre: Fibre,
        obj_val: PhpValue,
        first: bool,
        call: F,
    ) -> (r: (Fibre, Result<bool, String>))
        requires
            obj_val matches PhpValue::Object(h) ==> {
                &&& h < fibre.arena.objects@.len()
                &&& fibre.lookups_end(fibre.class_of_value(obj_val), seq![position_method(first), "valid"@])
            },
            call_ok(call),
        ensures
            fibre.iterator_stepped(obj_val, first, call, r.1, r.0),
    {
        let plan = match Self::iterator_plan(&fibre, obj_val, first) {
            Ok(p) => p,
            Err(m) => {
                return (fibre, Err(m));
            },
        };
        let h = match obj_val {
            PhpValue::Object(h) => h,
            _ => {
                return (fibre, Err("foreach source is not an object".to_owned()));
            },
        };
        let cid = Self::obj_class_id_loaded(&fibre, &fibre.arena.objects[h]);
        let ghost start = fibre;
        proof {
            let names = seq![position_method(first), "valid"@];
            assert(start.engine_state.method_lookup(cid as int, names[1]) is Some);
        }
        let mut fb = fibre;
        if plan.call_position {
            let n = if first {
                "rewind".to_owned()
            } else {
                "next".to_owned()
            };
            let ghost gn = n;
            let (f2, res) = call(fb, obj_val, n);
            let ghost out: CallOutcome = (f2, res);
            fb = f2;
            proof {
                assert(call_ensures(call, (start, obj_val, gn), out));
            }
            match res {
                Err(m) => {
                    return (fb, Err(m));
                },
                Ok(_) => {},
            }
        }
        let ghost mid = fb;
        assert(mid.engine_state.method_lookup(cid as int, "valid"@) is Some);
        if !method_exists(&fb, cid, "valid") {
            return (fb, Ok(false));
        }
        let n = "valid".to_owned();
        let ghost gn = n;
        let (f3, res) = call(fb, obj_val, n);
        let ghost out: CallOutcome = (f3, res);
        proof {
            assert(call_ensures(call, (mid, obj_val, gn), out));
        }
        match res {
            Err(m) => (f3, Err(m)),
            Ok(v) => {
                let t = crate::value::is_truthy(&v, &f3.arena);
                (f3, Ok(t))
            },
        }
    }
}

impl Fibre {
    /// Whether value `v` is in use on the stack.
    pub open spec fn on_stack(&self, v: PhpValue) -> bool {
        exists|i: int| 0 <= i < self.stack_top && #[trigger] self.stack@[i] == v
    }

    /// Whether the destructor of object `obj` is due: it has not run yet,
    /// the object's class has `__destruct`, and the object is not in use
    /// on the stack.
    pub open spec fn destructor_due(&self, obj: usize) -> bool {
        let o = self.arena.objects@[obj as int];
        &&& !o.destructed
        &&& self.has_method(self.obj_class_id(o), "__destruct"@)
        &&& !self.on_stack(PhpValue::Object(obj))
    }
}

/// `after` is `before` with object `obj` marked as destructed.
pub open spec fn marked_destructed(before: Fibre, after: Fibre, obj: usize) -> bool {
    &&& after == (Fibre { arena: after.arena, ..before })
    &&& after.arena == (crate::value::Arena { objects: after.arena.objects, ..before.arena })
    &&& after.arena.objects@ == before.arena.objects@.update(
        obj as int,
        PhpObject { destructed: true, ..before.arena.objects@[obj as int] },
    )
}

/// The result `r` of a destructor call on object `obj` and the fibre
/// `after` it leaves are those of [`VM::begin_method_call`] starting
/// `__destruct()` on `before`.
pub open spec fn destructor_call(before: Fibre, obj: usize, r: Result<Option<CallMark>, String>, after: Fibre) -> bool {
    match r {
        Ok(Some(m)) => before.method_call_begun(PhpValue::Object(obj), "__destruct"@, seq![], Ok::<CallMark, String>(m), after),
        Err(e) => before.method_call_begun(PhpValue::Object(obj), "__destruct"@, seq![], Err::<CallMark, String>(e), after),
        Ok(None) => false,
    }
}

impl VM {
    /// Runs the destructor of object `obj` when it is due (see
    /// [`Fibre::destructor_due`]): the object is marked as destructed and
    /// its `__destruct()` call started (see [`VM::begin_method_call`]); the
    /// mark to finish it with comes back, or the error that stopped it.
    /// When it is not due, nothing changes and `None` comes back.
    pub fn check_and_run_destructor(fibre: &mut Fibre, obj: usize) -> (r: Result<Option<CallMark>, String>)
        requires
            obj < old(fibre).arena.objects@.len(),
            old(fibre).stack_top <= old(fibre).stack@.len(),
            old(fibre).engine_state.method_lookup(
                old(fibre).obj_class_id(old(fibre).arena.objects@[obj as int]) as int,
                "__destruct"@,
            ) is Some,
            old(fibre).destructor_due(obj) ==> forall|mid: Fibre| #[trigger]
                marked_destructed(*old(fibre), mid, obj) ==> mid.method_call_ok(PhpValue::Object(obj), "__destruct"@, seq![]),
        ensures
            !old(fibre).destructor_due(obj) ==> r == Ok::<Option<CallMark>, String>(None) && *final(fibre) == *old(fibre),
            old(fibre).destructor_due(obj) ==> exists|mid: Fibre| #[trigger]
                marked_destructed(*old(fibre), mid, obj) && destructor_call(mid, obj, r, *final(fibre)),
    {
        if fibre.arena.objects[obj].destructed {
            return Ok(None);
        }
        let cid = Self::obj_class_id_loaded(fibre, &fibre.arena.objects[obj]);
        if !method_exists(fibre, cid, "__destruct") {
            return Ok(None);
        }
        let target = PhpValue::Object(obj);
        let mut i: usize = 0;
        while i < fibre.stack_top
            invariant
                *fibre == *old(fibre),
                target == PhpValue::Object(obj),
                i <= fibre.stack_top <= fibre.stack@.len(),
                forall|j: int| 0 <= j < i ==> fibre.stack@[j] != target,
            decreases fibre.stack_top - i,
        {
            if fibre.stack[i] == target {
                assert(fibre.stack@[i as int] == target);
                return Ok(None);
            }
            i = i + 1;
        }
        fibre.arena.objects[obj].destructed = true;
        let ghost mid = *fibre;
        proof {
            assert(fibre.arena.objects@ =~= old(fibre).arena.objects@.update(
                obj as int,
                PhpObject { destructed: true, ..old(fibre).arena.objects@[obj as int] },
            ));
            assert(marked_destructed(*old(fibre), mid, obj));
        }
        let no_args: &[PhpValue] = &[];
        assert(no_args@ =~= seq![]);
        let begun = Self::begin_method_call(fibre, target, "__destruct", no_args);
        let r = match begun {
            Ok(m) => Ok(Some(m)),
            Err(e) => Err(e),
        };
        assert(destructor_call(mid, obj, r, *fibre));
        r
    }
}

} // verus!
