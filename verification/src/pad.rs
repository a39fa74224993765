use vstd::prelude::*;
use crate::args::{HeapView, alloc_array, eval_default, first_variadic, heap, variadic_from};
use crate::classes::EngineState;
use crate::fibre::{Fibre, pushed_stack, grown_stack};
use crate::function::{CompiledParam, PhpFunction};
use crate::value::{Arena, ArrayKey, ArrayView, PhpArray, PhpValue, array_insert};
use crate::vm::VM;

verus! {

/// How many elements an array value's copy walks, plus one; 0 for a value
/// that is no array of the heap.
pub open spec fn array_weight(h: HeapView, v: PhpValue) -> int {
    match v {
        PhpValue::Array(a) => if (a as int) < h.1.len() {
            h.1[a as int].0.len() as int + 1
        } else {
            0
        },
        _ => 0,
    }
}

/// Copying a value by value at nesting `depth`: an array of the heap is
/// copied into a new array at the end of the heap, its nested arrays copied
/// in turn, down to depth 32; below that, and for every other value, the
/// value itself.
pub open spec fn deep_copy(h: HeapView, v: PhpValue, depth: int) -> (PhpValue, HeapView)
    decreases 33 - depth, array_weight(h, v),
{
    if depth > 32 || depth < 0 {
        (v, h)
    } else {
        match v {
            PhpValue::Array(a) => if (a as int) < h.1.len() {
                let els = h.1[a as int].0;
                let (arr, h2) = copy_elements(h, els, depth, els.len() as int);
                (PhpValue::Array(h2.1.len() as usize), (h2.0, h2.1.push(arr), h2.2, h2.3))
            } else {
                (v, h)
            },
            _ => (v, h),
        }
    }
}

/// The array the first `n` elements of `els` make when copied at `depth`,
/// nested arrays copied one level deeper.
pub open spec fn copy_elements(h: HeapView, els: Seq<(ArrayKey, PhpValue)>, depth: int, n: int) -> (ArrayView, HeapView)
    decreases 33 - depth, n,
{
    if n <= 0 || n > els.len() || depth > 32 || depth < 0 {
        ((seq![], 0i64), h)
    } else {
        let (arr, h1) = copy_elements(h, els, depth, n - 1);
        let (k, v) = els[n - 1];
        let (nv, h2) = match v {
            PhpValue::Array(_) => deep_copy(h1, v, depth + 1),
            _ => (v, h1),
        };
        (array_insert(arr, k, nv), h2)
    }
}

/// `h2` holds everything `h` holds: the same strings, objects and intern
/// table, and the arrays of `h` unchanged, with possibly more after them.
pub open spec fn heap_extends(h: HeapView, h2: HeapView) -> bool {
    &&& h2.0 == h.0
    &&& h2.2 == h.2
    &&& h2.3 == h.3
    &&& h.1.len() <= h2.1.len()
    &&& forall|i: int| 0 <= i < h.1.len() ==> #[trigger] h2.1[i] == h.1[i]
}

/// Copying a value only adds arrays to the heap.
pub proof fn lemma_deep_copy_extends(h: HeapView, v: PhpValue, depth: int)
    ensures
        heap_extends(h, deep_copy(h, v, depth).1),
    decreases 33 - depth, array_weight(h, v),
{
    if 0 <= depth <= 32 {
        if let PhpValue::Array(a) = v {
            if (a as int) < h.1.len() {
                let els = h.1[a as int].0;
                lemma_copy_elements_extends(h, els, depth, els.len() as int);
            }
        }
    }
}

/// Copying the elements of an array only adds arrays to the heap.
pub proof fn lemma_copy_elements_extends(h: HeapView, els: Seq<(ArrayKey, PhpValue)>, depth: int, n: int)
    ensures
        heap_extends(h, copy_elements(h, els, depth, n).1),
    decreases 33 - depth, n,
{
    if 0 < n <= els.len() && 0 <= depth <= 32 {
        lemma_copy_elements_extends(h, els, depth, n - 1);
        let h1 = copy_elements(h, els, depth, n - 1).1;
        let v = els[n - 1].1;
        if let PhpValue::Array(_) = v {
            lemma_deep_copy_extends(h1, v, depth + 1);
        }
    }
}

impl VM {
    /// Copies a value the way PHP passes arrays by value (see
    /// [`deep_copy`]); objects and scalars are shared as they are.
    pub fn deep_copy_value_depth(arena: &mut Arena, val: PhpValue, depth: usize) -> (r: PhpValue)
        ensures
            (r, heap(final(arena))) == deep_copy(heap(old(arena)), val, depth as int),
            final(arena).closures == old(arena).closures,
        decreases 33 - depth,
    {
        if depth > 32 {
            return val;
        }
        match val {
            PhpValue::Array(a) => {
                if a >= arena.arrays.len() {
                    return val;
                }
                let ghost h0 = heap(arena);
                let mut els: Vec<(ArrayKey, PhpValue)> = Vec::new();
                let n = arena.arrays[a].elements.len();
                let mut q: usize = 0;
                while q < n
                    invariant
                        a < arena.arrays@.len(),
                        n == arena.arrays@[a as int].elements@.len(),
                        q <= n,
                        els@ == arena.arrays@[a as int].elements@.take(q as int),
                    decreases n - q,
                {
                    els.push(arena.arrays[a].elements[q]);
                    proof {
                        assert(arena.arrays@[a as int].elements@.take(q as int + 1) =~= arena.arrays@[a as int].elements@.take(q as int).push(arena.arrays@[a as int].elements@[q as int]));
                    }
                    q = q + 1;
                }
                proof {
                    assert(arena.arrays@[a as int].elements@.take(n as int) =~= arena.arrays@[a as int].elements@);
                    assert(els@ == h0.1[a as int].0);
                }
                let mut new_arr = PhpArray::new();
                let mut i: usize = 0;
                while i < els.len()
                    invariant
                        depth <= 32,
                        i <= els@.len(),
                        els@ == h0.1[a as int].0,
                        (new_arr.view(), heap(arena)) == copy_elements(h0, els@, depth as int, i as int),
                        arena.closures == old(arena).closures,
                    decreases els@.len() - i,
                {
                    let (k, v) = els[i];
                    let nv = match v {
                        PhpValue::Array(_) => Self::deep_copy_value_depth(arena, v, depth + 1),
                        _ => v,
                    };
                    new_arr.insert(k, nv);
                    i = i + 1;
                }
                alloc_array(arena, new_arr)
            },
            _ => val,
        }
    }
}

/// A stack being prepared for a call: its slots, its top and the heap.
pub type PadState = (Seq<PhpValue>, int, HeapView);

/// Whether parameter `i` is taken by reference.
pub open spec fn by_ref_param(params: Seq<CompiledParam>, i: int) -> bool {
    0 <= i < params.len() && params[i].by_ref
}

/// Binding the arguments `i` to `limit` (first slot `w`) by value: each
/// argument below the top that is not taken by reference is replaced by
/// its copy (see [`deep_copy`]); binding stops at the first slot past the
/// top.
pub open spec fn bind_args(params: Seq<CompiledParam>, w: int, st: PadState, i: int, limit: int) -> PadState
    decreases limit - i,
{
    if i >= limit || w + i >= st.1 || i < 0 {
        st
    } else if by_ref_param(params, i) {
        bind_args(params, w, st, i + 1, limit)
    } else {
        let v = st.0[w + i];
        let (b, h2) = match v {
            PhpValue::Array(_) => deep_copy(st.2, v, 0),
            _ => (v, st.2),
        };
        bind_args(params, w, (st.0.update(w + i, b), st.1, h2), i + 1, limit)
    }
}

/// Pushing the defaults of parameters `i` to `hi`: a parameter's default
/// evaluated on the heap, `null` without one. `None` when an evaluation
/// does not end.
pub open spec fn pad_defaults(e: &EngineState, params: Seq<CompiledParam>, st: PadState, i: int, hi: int) -> Option<PadState>
    decreases hi - i,
{
    if i >= hi {
        Some(st)
    } else {
        let dv = if 0 <= i < params.len() && params[i].default_value is Some {
            eval_default(e, params[i].default_value->0, st.2)
        } else {
            Some((PhpValue::Null, st.2))
        };
        match dv {
            None => None,
            Some((v, h2)) => pad_defaults(e, params, (pushed_stack(st.0, st.1, v), st.1 + 1, h2), i + 1, hi),
        }
    }
}

/// The variadic array of the arguments `vi` to `n` that lie below the top,
/// keyed from 0.
pub open spec fn pack_upto(s: Seq<PhpValue>, top: int, w: int, vi: int, n: int) -> ArrayView
    decreases n - vi,
{
    if n <= vi {
        (seq![], 0i64)
    } else {
        let a = pack_upto(s, top, w, vi, n - 1);
        if w + n - 1 < top {
            array_insert(a, ArrayKey::Int((n - 1 - vi) as i64), s[w + n - 1])
        } else {
            a
        }
    }
}

/// The arguments bound and padded, and the arity they make: the parameters
/// before a variadic one bound by value (all arguments when it is not yet
/// packed, then padded with defaults and the rest packed into an array
/// stored at its slot when that slot exists); without one, every argument
/// bound and the parameters padded up to the function's arity.
pub open spec fn bound_args(
    e: &EngineState,
    st0: PadState,
    w: int,
    arity: int,
    func: PhpFunction,
    packed: bool,
) -> Option<(PadState, int)> {
    let params = func.params@;
    match variadic_from(params, 0) {
        Some(vi) => if packed {
            Some((bind_args(params, w, st0, 0, vi), vi + 1))
        } else {
            let s1 = bind_args(params, w, st0, 0, arity);
            let s2 = if arity < vi {
                pad_defaults(e, params, s1, arity, vi)
            } else {
                Some(s1)
            };
            let ar2 = if arity < vi {
                vi
            } else {
                arity
            };
            match s2 {
                None => None,
                Some(s2) => {
                    let arr = pack_upto(s2.0, s2.1, w, vi, ar2);
                    let h3 = (s2.2.0, s2.2.1.push(arr), s2.2.2, s2.2.3);
                    let val = PhpValue::Array(s2.2.1.len() as usize);
                    let stk = if w + vi < s2.0.len() {
                        s2.0.update(w + vi, val)
                    } else {
                        s2.0
                    };
                    Some(((stk, s2.1, h3), vi + 1))
                },
            }
        },
        None => {
            let s1 = bind_args(params, w, st0, 0, arity);
            let expected: int = if func.arity > params.len() {
                func.arity as int
            } else {
                params.len() as int
            };
            if arity < expected {
                match pad_defaults(e, params, s1, arity, expected) {
                    Some(s2) => Some((s2, expected)),
                    None => None,
                }
            } else {
                Some((s1, arity))
            }
        },
    }
}

/// A call frame's stack prepared from its arguments (first slot `w`):
/// the arguments bound and padded (see [`bound_args`]), the remaining
/// local slots that exist set to `null`, the top moved past the locals,
/// and the captured values copied into the slots after the parameters.
/// `None` when a default does not evaluate or a captured value falls in
/// the frame but past the stack.
pub open spec fn pad_result(
    e: &EngineState,
    st0: PadState,
    w: int,
    arity: int,
    func: PhpFunction,
    ups: Seq<PhpValue>,
    packed: bool,
) -> Option<PadState> {
    match bound_args(e, st0, w, arity, func, packed) {
        None => None,
        Some((s, ar)) => {
            let start = w + ar;
            let end: int = if ar > func.num_locals {
                w + ar
            } else {
                w + func.num_locals
            };
            let s4 = Seq::new(s.0.len(), |j: int| if start <= j < end { PhpValue::Null } else { s.0[j] });
            let np = func.params@.len() as int;
            let hi: int = if end < w + np + ups.len() {
                end
            } else {
                w + np + ups.len()
            };
            if w + np < hi && hi > s4.len() {
                None
            } else {
                let s5 = Seq::new(
                    s4.len(),
                    |j: int| if w + np <= j < hi { ups[j - w - np] } else { s4[j] },
                );
                Some((s5, end, s.2))
            }
        },
    }
}

/// Pushes onto a stack given as its slots and top.
pub(crate) fn push_raw(stack: &mut Vec<PhpValue>, top: &mut usize, v: PhpValue)
    requires
        *old(top) <= old(stack)@.len(),
        *old(top) < usize::MAX / 4,
    ensures
        final(stack)@ == pushed_stack(old(stack)@, *old(top) as int, v),
        *final(top) == *old(top) + 1,
        *final(top) <= final(stack)@.len(),
{
    if *top >= stack.len() {
        let len = stack.len();
        let base: usize = if len > 64 { len } else { 64 };
        stack.resize(base * 2, PhpValue::Null);
        proof {
            assert(stack@ =~= grown_stack(old(stack)@));
        }
    }
    let t = *top;
    stack.set(t, v);
    *top = t + 1;
}

fn bind_args_exec(
    stack: &mut Vec<PhpValue>,
    top: usize,
    arena: &mut Arena,
    params: &Vec<CompiledParam>,
    w: usize,
    limit: usize,
)
    requires
        top <= old(stack)@.len(),
        w + limit <= usize::MAX,
    ensures
        bind_args(params@, w as int, (old(stack)@, top as int, heap(old(arena))), 0, limit as int) == (
            final(stack)@,
            top as int,
            heap(final(arena)),
        ),
        final(stack)@.len() == old(stack)@.len(),
        final(arena).closures == old(arena).closures,
{
    let mut i: usize = 0;
    while i < limit && w + i < top
        invariant
            stack@.len() == old(stack)@.len(),
            i <= limit,
            w + limit <= usize::MAX,
            top <= stack@.len(),
            bind_args(params@, w as int, (old(stack)@, top as int, heap(old(arena))), 0, limit as int) == bind_args(
                params@,
                w as int,
                (stack@, top as int, heap(arena)),
                i as int,
                limit as int,
            ),
            arena.closures == old(arena).closures,
        decreases limit - i,
    {
        let slot = w + i;
        if i < params.len() && params[i].by_ref {
            i = i + 1;
            continue;
        }
        let v = stack[slot];
        let b = match v {
            PhpValue::Array(_) => VM::deep_copy_value_depth(arena, v, 0),
            _ => v,
        };
        stack.set(slot, b);
        i = i + 1;
    }
}

fn pad_defaults_exec(
    stack: &mut Vec<PhpValue>,
    top: &mut usize,
    arena: &mut Arena,
    e: &EngineState,
    params: &Vec<CompiledParam>,
    lo: usize,
    hi: usize,
)
    requires
        *old(top) <= old(stack)@.len(),
        *old(top) + (hi - lo) < usize::MAX / 4,
        lo <= hi,
        pad_defaults(e, params@, (old(stack)@, *old(top) as int, heap(old(arena))), lo as int, hi as int) is Some,
    ensures
        pad_defaults(e, params@, (old(stack)@, *old(top) as int, heap(old(arena))), lo as int, hi as int) == Some(
            (final(stack)@, *final(top) as int, heap(final(arena))),
        ),
        *final(top) <= final(stack)@.len(),
        final(arena).closures == old(arena).closures,
{
    let mut i: usize = lo;
    while i < hi
        invariant
            lo <= i <= hi,
            *top <= stack@.len(),
            *top == *old(top) + (i - lo),
            *old(top) + (hi - lo) < usize::MAX / 4,
            pad_defaults(e, params@, (old(stack)@, *old(top) as int, heap(old(arena))), lo as int, hi as int) == pad_defaults(
                e,
                params@,
                (stack@, *top as int, heap(arena)),
                i as int,
                hi as int,
            ),
            pad_defaults(e, params@, (stack@, *top as int, heap(arena)), i as int, hi as int) is Some,
            arena.closures == old(arena).closures,
        decreases hi - i,
    {
        let v = if i < params.len() {
            match &params[i].default_value {
                Some(d) => VM::default_val_to_value(e, d, arena),
                None => PhpValue::Null,
            }
        } else {
            PhpValue::Null
        };
        push_raw(stack, top, v);
        i = i + 1;
    }
}

fn pack_exec(stack: &Vec<PhpValue>, top: usize, w: usize, vi: usize, n: usize) -> (r: PhpArray)
    requires
        top <= stack@.len(),
        w + n <= usize::MAX,
    ensures
        r.view() == pack_upto(stack@, top as int, w as int, vi as int, n as int),
{
    let mut arr = PhpArray::new();
    let mut i: usize = vi;
    while i < n
        invariant
            vi <= i <= n || (i == vi && n < vi),
            top <= stack@.len(),
            w + n <= usize::MAX,
            arr.view() == pack_upto(stack@, top as int, w as int, vi as int, i as int),
        decreases n - i,
    {
        let slot = w + i;
        if slot < top {
            #[verifier::truncate]
            let key: i64 = (i - vi) as i64;
            arr.insert(ArrayKey::Int(key), stack[slot]);
        }
        i = i + 1;
    }
    proof {
        if n < vi {
            assert(pack_upto(stack@, top as int, w as int, vi as int, n as int) == pack_upto(stack@, top as int, w as int, vi as int, vi as int));
        }
    }
    arr
}

impl Fibre {
    /// The numbers a call's frame preparation works with fit the machine:
    /// the frame's slots, and the stack after the defaults are pushed.
    pub open spec fn pad_fits(&self, arity: usize, func: PhpFunction, nups: int) -> bool {
        let w = self.frames@[self.frame_count - 1].stack_window + 1;
        &&& w + arity + func.num_locals + func.arity + func.params@.len() + nups <= usize::MAX
        &&& self.stack_top + func.arity + func.params@.len() < usize::MAX / 4
    }
}

impl VM {
    /// Prepares the current frame for running function `func_idx` with
    /// `arity` arguments on the stack (see [`pad_result`]): arguments bound
    /// by value, missing ones given their defaults, variadic arguments
    /// packed unless `variadic_already_packed`, locals cleared and the
    /// captured `upvalues` copied in.
    pub fn pad_missing_arguments_and_locals(
        fibre: &mut Fibre,
        arity: usize,
        func_idx: usize,
        upvalues: &[PhpValue],
        variadic_already_packed: bool,
    )
        requires
            1 <= old(fibre).frame_count <= old(fibre).frames@.len(),
            func_idx < old(fibre).engine_state.functions@.len(),
            old(fibre).stack_top <= old(fibre).stack@.len(),
            old(fibre).pad_fits(arity, old(fibre).engine_state.functions@[func_idx as int], upvalues@.len() as int),
            pad_result(
                &old(fibre).engine_state,
                (old(fibre).stack@, old(fibre).stack_top as int, heap(&old(fibre).arena)),
                old(fibre).frames@[old(fibre).frame_count - 1].stack_window + 1,
                arity as int,
                old(fibre).engine_state.functions@[func_idx as int],
                upvalues@,
                variadic_already_packed,
            ) is Some,
        ensures
            pad_result(
                &old(fibre).engine_state,
                (old(fibre).stack@, old(fibre).stack_top as int, heap(&old(fibre).arena)),
                old(fibre).frames@[old(fibre).frame_count - 1].stack_window + 1,
                arity as int,
                old(fibre).engine_state.functions@[func_idx as int],
                upvalues@,
                variadic_already_packed,
            ) == Some((final(fibre).stack@, final(fibre).stack_top as int, heap(&final(fibre).arena))),
            final(fibre).arena.closures == old(fibre).arena.closures,
            final(fibre).engine_state == old(fibre).engine_state,
            final(fibre).frames == old(fibre).frames,
            final(fibre).frame_count == old(fibre).frame_count,
            final(fibre).autoload_frame_depths == old(fibre).autoload_frame_depths,
            final(fibre).unwind_action == old(fibre).unwind_action,
            final(fibre).dynamic_locals == old(fibre).dynamic_locals,
            final(fibre).autoloaders == old(fibre).autoloaders,
            final(fibre).autoload_state == old(fibre).autoload_state,
    {
        let w = fibre.frames[fibre.frame_count - 1].stack_window + 1;
        let ghost e = fibre.engine_state;
        let ghost func = fibre.engine_state.functions@[func_idx as int];
        let ghost st0: PadState = (fibre.stack@, fibre.stack_top as int, heap(&fibre.arena));
        let ghost bound = bound_args(&e, st0, w as int, arity as int, func, variadic_already_packed);
        assert(bound is Some);
        let ar: usize;
        match first_variadic(&fibre.engine_state.functions[func_idx].params) {
            Some(vi) => {
                if variadic_already_packed {
                    bind_args_exec(&mut fibre.stack, fibre.stack_top, &mut fibre.arena, &fibre.engine_state.functions[func_idx].params, w, vi);
                    ar = vi + 1;
                } else {
                    bind_args_exec(&mut fibre.stack, fibre.stack_top, &mut fibre.arena, &fibre.engine_state.functions[func_idx].params, w, arity);
                    let mut ar2 = arity;
                    if arity < vi {
                        pad_defaults_exec(
                            &mut fibre.stack,
                            &mut fibre.stack_top,
                            &mut fibre.arena,
                            &fibre.engine_state,
                            &fibre.engine_state.functions[func_idx].params,
                            arity,
                            vi,
                        );
                        ar2 = vi;
                    }
                    let arr = pack_exec(&fibre.stack, fibre.stack_top, w, vi, ar2);
                    let val = alloc_array(&mut fibre.arena, arr);
                    if w + vi < fibre.stack.len() {
                        fibre.stack.set(w + vi, val);
                    }
                    ar = vi + 1;
                }
            },
            None => {
                bind_args_exec(&mut fibre.stack, fibre.stack_top, &mut fibre.arena, &fibre.engine_state.functions[func_idx].params, w, arity);
                let fa = fibre.engine_state.functions[func_idx].arity;
                let np = fibre.engine_state.functions[func_idx].params.len();
                let expected = if fa > np {
                    fa
                } else {
                    np
                };
                if arity < expected {
                    pad_defaults_exec(
                        &mut fibre.stack,
                        &mut fibre.stack_top,
                        &mut fibre.arena,
                        &fibre.engine_state,
                        &fibre.engine_state.functions[func_idx].params,
                        arity,
                        expected,
                    );
                    ar = expected;
                } else {
                    ar = arity;
                }
            },
        }
        let ghost s_mid: PadState = (fibre.stack@, fibre.stack_top as int, heap(&fibre.arena));
        assert(bound == Some((s_mid, ar as int)));
        let nl = fibre.engine_state.functions[func_idx].num_locals;
        let np = fibre.engine_state.functions[func_idx].params.len();
        let end = if ar > nl {
            w + ar
        } else {
            w + nl
        };
        clear_slots(&mut fibre.stack, w + ar, end);
        fibre.stack_top = end;
        if upvalues.len() > 0 {
            copy_upvalues(&mut fibre.stack, end, w + np, upvalues);
        } else {
            proof {
                assert(fibre.stack@ =~= Seq::new(
                    fibre.stack@.len(),
                    |j: int| if w + np <= j < w + np { upvalues@[j - w - np] } else { fibre.stack@[j] },
                ));
            }
        }
    }
}

/// Sets the slots from `start` to `end` that exist to `null`.
fn clear_slots(stack: &mut Vec<PhpValue>, start: usize, end: usize)
    ensures
        final(stack)@ == Seq::new(old(stack)@.len(), |j: int| if start <= j < end { PhpValue::Null } else { old(stack)@[j] }),
{
    let mut slot = start;
    while slot < end
        invariant
            start <= slot <= end || (slot == start && end < start),
            stack@.len() == old(stack)@.len(),
            forall|j: int| 0 <= j < stack@.len() ==> #[trigger] stack@[j] == (if start <= j < slot {
                PhpValue::Null
            } else {
                old(stack)@[j]
            }),
        decreases end - slot,
    {
        if slot < stack.len() {
            stack.set(slot, PhpValue::Null);
        }
        slot = slot + 1;
    }
    proof {
        assert(stack@ =~= Seq::new(old(stack)@.len(), |j: int| if start <= j < end { PhpValue::Null } else { old(stack)@[j] }));
    }
}

/// Copies `ups` into the slots from `first` on that lie below `top`.
fn copy_upvalues(stack: &mut Vec<PhpValue>, top: usize, first: usize, ups: &[PhpValue])
    requires
        first + ups@.len() <= usize::MAX,
        ({
            let hi: int = if top < first + ups@.len() { top as int } else { first + ups@.len() };
            first < hi ==> hi <= old(stack)@.len()
        }),
    ensures
        ({
            let hi: int = if top < first + ups@.len() { top as int } else { first + ups@.len() };
            final(stack)@ == Seq::new(old(stack)@.len(), |j: int| if first <= j < hi { ups@[j - first] } else { old(stack)@[j] })
        }),
{
    let ghost hi: int = if top < first + ups@.len() { top as int } else { first + ups@.len() };
    let mut idx: usize = 0;
    while idx < ups.len()
        invariant
            idx <= ups@.len(),
            first + ups@.len() <= usize::MAX,
            hi == (if top < first + ups@.len() { top as int } else { first + ups@.len() }),
            first < hi ==> hi <= old(stack)@.len(),
            stack@.len() == old(stack)@.len(),
            forall|j: int| 0 <= j < stack@.len() ==> #[trigger] stack@[j] == (if first <= j < first + idx && j < hi {
                ups@[j - first]
            } else {
                old(stack)@[j]
            }),
        decreases ups@.len() - idx,
    {
        let slot = first + idx;
        if slot < top {
            stack.set(slot, ups[idx]);
        }
        idx = idx + 1;
    }
    proof {
        assert(stack@ =~= Seq::new(old(stack)@.len(), |j: int| if first <= j < hi { ups@[j - first] } else { old(stack)@[j] }));
    }
}

} // verus!
