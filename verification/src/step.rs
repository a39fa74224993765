use vstd::prelude::*;
use crate::args::heap;
use crate::fibre::{CallFrame, ExecutionResult, Fibre, UnwindAction, pushed_stack};
use crate::compare::{compare_step, loose_eq, CompareStep, LooseEq, Order};
use crate::pad::deep_copy;
use crate::resolve::value_ok;
use crate::sync::CallMark;
use crate::throw::{append, append_decimal_u64, decimal_chars};
use crate::value::{
    array_get, array_insert, data_handle_ok, is_truthy, parse_i64, parse_i64_exec, truthy, ArrayKey, ArrayView, PhpArray,
    PhpValue,
};
use crate::vm::VM;

verus! {

/// An instruction of the interpreter, with its operands decoded: the frame's
/// instruction pointer already lies past it.
#[derive(Clone, Copy, PartialEq, Eq, Structural, Debug)]
pub enum Opcode {
    /// Drops the top value.
    Pop,
    /// Pushes a copy of the top value.
    Dup,
    /// Exchanges the two top values.
    Swap,
    /// Replaces the top value by its boolean negation.
    Not,
    /// Pushes constant `idx` of the running function.
    Constant(u16),
    /// Pushes local `idx` of the running frame.
    GetLocal(u8),
    /// Stores the top value in local `idx` (an array copied by value), and
    /// leaves what was stored on top.
    SetLocal(u8),
    /// Jumps forward by the offset.
    Jump(u16),
    /// Pops a condition and jumps forward by the offset when it is false.
    JumpIfFalse(u16),
    /// Jumps back by the offset.
    Loop(u16),
    Add,
    Subtract,
    Multiply,
    /// Returns the top value from the running frame.
    ReturnValue,
    /// Returns `null` from the running frame.
    Return,
    /// Pops two values and pushes how they compare (see [`compared`]).
    Compare(CompareOp),
    /// Pops two values and pushes whether both are true.
    LogicalAnd,
    /// Pops two values and pushes whether either is true.
    LogicalOr,
}

/// A comparison operator: `==`, `!=`, `<`, `>`, `<=`, `>=`.
#[derive(Clone, Copy, PartialEq, Eq, Structural, Debug)]
pub enum CompareOp {
    Equal,
    NotEqual,
    Less,
    Greater,
    LessOrEqual,
    GreaterOrEqual,
}

/// How `x op y` comes out where that needs no floating-point number (see
/// [`loose_eq`] and [`compare_step`]); `None` where it does, or where
/// arrays or objects compare member by member.
pub open spec fn compared(a: &crate::value::Arena, op: CompareOp, x: PhpValue, y: PhpValue) -> Option<bool> {
    match op {
        CompareOp::Equal | CompareOp::NotEqual => match loose_eq(a, x, y) {
            LooseEq::Known(e) => Some(if op is Equal { e } else { !e }),
            _ => None,
        },
        _ => match compare_step(a, x, y) {
            CompareStep::Known(o) => Some(
                match op {
                    CompareOp::Less => o is Less,
                    CompareOp::Greater => o is Greater,
                    CompareOp::LessOrEqual => !(o is Greater),
                    _ => !(o is Less),
                },
            ),
            _ => None,
        },
    }
}

/// An arithmetic operator.
#[derive(Clone, Copy, PartialEq, Eq, Structural, Debug)]
pub enum ArithOp {
    Add,
    Subtract,
    Multiply,
}

/// What the caller does after a step.
#[derive(PartialEq, Eq, Debug)]
pub enum StepAction {
    /// Run the next instruction.
    Continue,
    /// A popped object: see whether its destructor is due (see
    /// [`VM::check_and_run_destructor`]), then go on.
    RunDestructor(usize),
    /// Floating-point arithmetic: the two operands are still on the stack,
    /// for the caller to pop, combine as floats and push.
    FloatArith(ArithOp),
    /// A comparison of numbers, numeric strings, arrays or objects: the
    /// two operands are still on the stack, for the caller to pop, compare
    /// and push the answer as a boolean.
    Compare(CompareOp),
    /// The run stops with this error.
    Error(String),
    /// The last frame returned: the run is finished.
    Finished,
}

/// An arithmetic operand after PHP's coercion as the interpreter makes it.
pub enum Operand {
    /// An integer: an integer, `null` as 0, a boolean as 0 or 1, or a
    /// string that reads as an `i32`.
    Int(i32),
    /// A float, or a string that does not read as an `i32` (it counts as a
    /// float when it reads as one, else as 0, which floating-point parsing
    /// decides).
    NeedsFloat,
    /// An array, object or closure: no number.
    NonNumeric,
}

/// How a value enters arithmetic.
pub open spec fn arith_operand(a: &crate::value::Arena, v: PhpValue) -> Operand {
    match v {
        PhpValue::Int(i) => Operand::Int(i),
        PhpValue::Float(_) => Operand::NeedsFloat,
        PhpValue::Null => Operand::Int(0),
        PhpValue::Bool(b) => Operand::Int(if b { 1 } else { 0 }),
        PhpValue::Str(h) => match parse_i64(a.strings@[h as int]@) {
            Some(n) => if i32::MIN <= n <= i32::MAX {
                Operand::Int(n as i32)
            } else {
                Operand::NeedsFloat
            },
            None => Operand::NeedsFloat,
        },
        _ => Operand::NonNumeric,
    }
}

/// Integer arithmetic as the engine does it, wrapping around on overflow.
pub open spec fn int_arith(op: ArithOp, x: i32, y: i32) -> i32 {
    match op {
        ArithOp::Add => x.wrapping_add(y),
        ArithOp::Subtract => x.wrapping_sub(y),
        ArithOp::Multiply => x.wrapping_mul(y),
    }
}

/// The array `arr` after inserting the first `n` elements of `els` in order.
pub open spec fn insert_all(arr: ArrayView, els: Seq<(ArrayKey, PhpValue)>, n: int) -> ArrayView
    decreases n,
{
    if n <= 0 || n > els.len() {
        arr
    } else {
        let prev = insert_all(arr, els, n - 1);
        array_insert(prev, els[n - 1].0, els[n - 1].1)
    }
}

/// The array `arr` after inserting, in order, those of the first `n`
/// elements of `els` whose key it does not hold yet.
pub open spec fn insert_missing(arr: ArrayView, els: Seq<(ArrayKey, PhpValue)>, n: int) -> ArrayView
    decreases n,
{
    if n <= 0 || n > els.len() {
        arr
    } else {
        let prev = insert_missing(arr, els, n - 1);
        if array_get(prev, els[n - 1].0) is Some {
            prev
        } else {
            array_insert(prev, els[n - 1].0, els[n - 1].1)
        }
    }
}

/// `a + b` on two arrays: every element of `a`, then those of `b` whose key
/// `a` does not hold.
pub open spec fn array_union(a: ArrayView, b: ArrayView) -> ArrayView {
    let first = insert_all((seq![], 0i64), a.0, a.0.len() as int);
    insert_missing(first, b.0, b.0.len() as int)
}

/// The first `finally` region, from index `i` on, that a return at `ip`
/// (the instruction pointer past the return) leaves from inside.
pub open spec fn return_finally(fs: Seq<crate::function::FinallyHandler>, ip: usize, i: int) -> Option<int>
    decreases fs.len() - i,
{
    if i < 0 || i >= fs.len() {
        None
    } else if ip > fs[i].start_ip && ip - 1 < fs[i].end_ip {
        Some(i)
    } else {
        return_finally(fs, ip, i + 1)
    }
}

/// The run-time variables without those of frame `k`.
pub open spec fn drop_frame_locals(dl: Seq<(usize, Vec<(String, PhpValue)>)>, k: usize) -> Seq<(usize, Vec<(String, PhpValue)>)>
    decreases dl.len(),
{
    if dl.len() == 0 {
        dl
    } else {
        let rest = drop_frame_locals(dl.drop_last(), k);
        if dl.last().0 == k {
            rest
        } else {
            rest.push(dl.last())
        }
    }
}

/// How many values `op` takes from the stack.
pub open spec fn pops_of(op: Opcode) -> int {
    match op {
        Opcode::Pop | Opcode::Dup | Opcode::Not | Opcode::JumpIfFalse(_) | Opcode::SetLocal(_) | Opcode::ReturnValue => 1,
        Opcode::Swap | Opcode::Add | Opcode::Subtract | Opcode::Multiply | Opcode::Compare(_) | Opcode::LogicalAnd
        | Opcode::LogicalOr => 2,
        _ => 0,
    }
}

impl Fibre {
    /// The running frame.
    pub open spec fn top_frame(&self) -> CallFrame {
        self.frames@[self.frame_count - 1]
    }

    /// The frames with the running frame's instruction pointer set to `ip`.
    pub open spec fn frames_at(&self, ip: int) -> Seq<CallFrame> {
        self.frames@.update(self.frame_count - 1, CallFrame { ip: ip as usize, ..self.top_frame() })
    }

    /// The value `i` places below the top of the stack (0 is the top).
    pub open spec fn below_top(&self, i: int) -> PhpValue {
        self.stack@[self.stack_top - 1 - i]
    }

    /// What step `op` needs: a running frame of a known function; the
    /// values it takes on the stack, with the strings and arrays they name
    /// in the heap; room to push; the constant it names; an instruction
    /// pointer that stays a `usize`.
    pub open spec fn can_step(&self, op: Opcode) -> bool {
        let pops = pops_of(op);
        &&& 1 <= self.frame_count <= self.frames@.len()
        &&& self.top_frame().function.0 < self.engine_state.functions@.len()
        &&& self.stack_ok()
        &&& pops <= self.stack_top
        &&& forall|i: int| 0 <= i < pops ==> data_handle_ok(&self.arena, #[trigger] self.below_top(i))
        &&& (op matches Opcode::Constant(idx) ==> idx < self.engine_state.functions@[self.top_frame().function.0 as int].chunk.constants@.len())
        &&& (op matches Opcode::GetLocal(i) ==> self.top_frame().stack_window + i < self.stack@.len())
        &&& (op matches Opcode::SetLocal(i) ==> self.top_frame().stack_window + i < self.stack@.len())
        &&& ((op is ReturnValue || op is Return) ==> self.top_frame().stack_window <= self.stack@.len())
        &&& (op matches Opcode::Jump(off) ==> self.top_frame().ip + off <= usize::MAX)
        &&& (op matches Opcode::JumpIfFalse(off) ==> self.top_frame().ip + off <= usize::MAX)
        &&& (op is Compare ==> value_ok(&self.arena, self.below_top(0)) && value_ok(&self.arena, self.below_top(1)))
    }

    /// One step of the interpreter: `self` runs `op` and becomes `after`,
    /// with `r` telling the caller what to do next.
    /// - `Pop` drops the top value (an object is handed to its destructor
    ///   check); `Dup` pushes the top value again; `Swap` exchanges the top
    ///   two; `Not` replaces the top value by `false` when it is true, `true`
    ///   otherwise;
    /// - `Constant` pushes the constant, an array copied by value (see
    ///   [`deep_copy`]); `GetLocal` pushes a local of the running frame
    ///   (the slots above its window); `SetLocal` stores the top value,
    ///   an array copied by value, in a local and on top;
    /// - `Jump` moves the instruction pointer forward, `JumpIfFalse` does
    ///   when the condition it pops is false, `Loop` moves it back, an error
    ///   when that would pass the start of the code;
    /// - arithmetic on two integer operands (see [`arith_operand`]) pushes
    ///   the wrapped result; with an operand that is no number, `+` of two
    ///   arrays pushes their union (see [`array_union`]) and anything else
    ///   `null`; otherwise the operands stay for floating-point arithmetic;
    /// - a comparison pops its operands and pushes its answer where that
    ///   needs no floating-point number and no member-by-member walk (see
    ///   [`compared`]), else the operands stay for the caller; `LogicalAnd`
    ///   and `LogicalOr` push the conjunction or disjunction of the two
    ///   values' truth;
    /// - `ReturnValue` (of the value it pops) and `Return` (of `null`) from
    ///   inside a `finally` region jump to it, the return kept to be made
    ///   when it ends; otherwise the frame's run-time variables are dropped
    ///   and the frame returns (see [`VM::handle_return`]), the run finished
    ///   when it was the last.
    pub open spec fn stepped(&self, op: Opcode, after: Fibre, r: StepAction) -> bool {
        let top = self.stack_top as int;
        let ip = self.top_frame().ip as int;
        let popped1 = Fibre { stack_top: (top - 1) as usize, ..*self };
        match op {
            Opcode::Pop => {
                &&& after == popped1
                &&& r == match self.below_top(0) {
                    PhpValue::Object(h) => StepAction::RunDestructor(h),
                    _ => StepAction::Continue,
                }
            },
            Opcode::Dup => {
                &&& r == StepAction::Continue
                &&& after == (Fibre { stack: after.stack, stack_top: (top + 1) as usize, ..*self })
                &&& after.stack@ == pushed_stack(self.stack@, top, self.below_top(0))
            },
            Opcode::Swap => {
                &&& r == StepAction::Continue
                &&& after == (Fibre { stack: after.stack, ..*self })
                &&& after.stack@ == self.stack@.update(top - 2, self.below_top(0)).update(top - 1, self.below_top(1))
            },
            Opcode::Not => {
                &&& r == StepAction::Continue
                &&& after == (Fibre { stack: after.stack, ..*self })
                &&& after.stack@ == self.stack@.update(top - 1, PhpValue::Bool(!truthy(&self.arena, self.below_top(0))))
            },
            Opcode::Constant(idx) => {
                let c = self.engine_state.functions@[self.top_frame().function.0 as int].chunk.constants@[idx as int];
                let (v, h) = if c is Array {
                    deep_copy(heap(&self.arena), c, 0)
                } else {
                    (c, heap(&self.arena))
                };
                &&& r == StepAction::Continue
                &&& after == (Fibre { stack: after.stack, stack_top: (top + 1) as usize, arena: after.arena, ..*self })
                &&& after.stack@ == pushed_stack(self.stack@, top, v)
                &&& heap(&after.arena) == h
                &&& after.arena.closures == self.arena.closures
            },
            Opcode::GetLocal(i) => {
                &&& r == StepAction::Continue
                &&& after == (Fibre { stack: after.stack, stack_top: (top + 1) as usize, ..*self })
                &&& after.stack@ == pushed_stack(self.stack@, top, self.stack@[self.top_frame().stack_window + i])
            },
            Opcode::SetLocal(i) => {
                let v = self.below_top(0);
                let (nv, h) = if v is Array {
                    deep_copy(heap(&self.arena), v, 0)
                } else {
                    (v, heap(&self.arena))
                };
                &&& r == StepAction::Continue
                &&& after == (Fibre { stack: after.stack, arena: after.arena, ..*self })
                &&& after.stack@ == self.stack@.update(self.top_frame().stack_window + i, nv).update(top - 1, nv)
                &&& heap(&after.arena) == h
                &&& after.arena.closures == self.arena.closures
            },
            Opcode::Jump(off) => {
                &&& r == StepAction::Continue
                &&& after == (Fibre { frames: after.frames, ..*self })
                &&& after.frames@ == self.frames_at(ip + off)
            },
            Opcode::JumpIfFalse(off) => {
                &&& r == StepAction::Continue
                &&& after == (Fibre { frames: after.frames, ..popped1 })
                &&& after.frames@ == if truthy(&self.arena, self.below_top(0)) {
                    self.frames@
                } else {
                    self.frames_at(ip + off)
                }
            },
            Opcode::Loop(off) => if off > ip {
                &&& after == *self
                &&& r matches StepAction::Error(m) && m@ == "Loop offset "@ + decimal_chars(off as nat) + " > ip "@
                    + decimal_chars(ip as nat)
            } else {
                &&& r == StepAction::Continue
                &&& after == (Fibre { frames: after.frames, ..*self })
                &&& after.frames@ == self.frames_at(ip - off)
            },
            Opcode::ReturnValue | Opcode::Return => {
                let (ret, base) = if op is ReturnValue {
                    (self.below_top(0), popped1)
                } else {
                    (PhpValue::Null, *self)
                };
                let fr = self.top_frame();
                let fs = self.engine_state.functions@[fr.function.0 as int].chunk.finally_handlers@;
                let fc = self.frame_count;
                let depths = self.autoload_frame_depths@;
                let autoload = depths.len() > 0 && depths.last() == fc - 1;
                match return_finally(fs, fr.ip, 0) {
                    Some(j) => {
                        &&& r == StepAction::Continue
                        &&& after == (Fibre { frames: after.frames, unwind_action: Some(UnwindAction::Return(ret)), ..base })
                        &&& after.frames@ == self.frames_at(fs[j].finally_ip as int)
                    },
                    None => {
                        &&& r == if fc == 1 { StepAction::Finished } else { StepAction::Continue }
                        &&& after.frame_count == fc - 1
                        &&& after.autoload_frame_depths@ == if autoload { depths.drop_last() } else { depths }
                        &&& after.live() == if autoload {
                            self.stack@.take(fr.stack_window as int)
                        } else {
                            self.stack@.take(fr.stack_window as int).push(ret)
                        }
                        &&& after.stack_top == if autoload { fr.stack_window } else { (fr.stack_window + 1) as usize }
                        &&& after.dynamic_locals@ == drop_frame_locals(self.dynamic_locals@, (fc - 1) as usize)
                        &&& after.frames == self.frames
                        &&& after.engine_state == self.engine_state
                        &&& after.arena == self.arena
                        &&& after.unwind_action == self.unwind_action
                        &&& after.autoloaders == self.autoloaders
                        &&& after.autoload_state == self.autoload_state
                        &&& after.static_properties == self.static_properties
                    },
                }
            },
            Opcode::Compare(c) => match compared(&self.arena, c, self.below_top(1), self.below_top(0)) {
                Some(res) => {
                    &&& r == StepAction::Continue
                    &&& after == (Fibre { stack: after.stack, stack_top: (top - 1) as usize, ..*self })
                    &&& after.stack@ == self.stack@.update(top - 2, PhpValue::Bool(res))
                },
                None => r == StepAction::Compare(c) && after == *self,
            },
            Opcode::LogicalAnd | Opcode::LogicalOr => {
                let p = truthy(&self.arena, self.below_top(1));
                let q = truthy(&self.arena, self.below_top(0));
                &&& r == StepAction::Continue
                &&& after == (Fibre { stack: after.stack, stack_top: (top - 1) as usize, ..*self })
                &&& after.stack@ == self.stack@.update(
                    top - 2,
                    PhpValue::Bool(if op is LogicalAnd { p && q } else { p || q }),
                )
            },
            Opcode::Add | Opcode::Subtract | Opcode::Multiply => {
                let aop = match op {
                    Opcode::Add => ArithOp::Add,
                    Opcode::Subtract => ArithOp::Subtract,
                    _ => ArithOp::Multiply,
                };
                let a = self.below_top(1);
                let b = self.below_top(0);
                let h = heap(&self.arena);
                match (arith_operand(&self.arena, a), arith_operand(&self.arena, b)) {
                    (Operand::Int(x), Operand::Int(y)) => {
                        &&& r == StepAction::Continue
                        &&& after == (Fibre { stack: after.stack, stack_top: (top - 1) as usize, ..*self })
                        &&& after.stack@ == self.stack@.update(top - 2, PhpValue::Int(int_arith(aop, x, y)))
                    },
                    (Operand::NonNumeric, _) | (_, Operand::NonNumeric) => {
                        &&& r == StepAction::Continue
                        &&& after == (Fibre { stack: after.stack, stack_top: (top - 1) as usize, arena: after.arena, ..*self })
                        &&& after.arena.closures == self.arena.closures
                        &&& match (aop, a, b) {
                            (ArithOp::Add, PhpValue::Array(x), PhpValue::Array(y)) => {
                                &&& heap(&after.arena) == (h.0, h.1.push(array_union(h.1[x as int], h.1[y as int])), h.2, h.3)
                                &&& after.stack@ == self.stack@.update(top - 2, PhpValue::Array(h.1.len() as usize))
                            },
                            _ => {
                                &&& heap(&after.arena) == h
                                &&& after.stack@ == self.stack@.update(top - 2, PhpValue::Null)
                            },
                        }
                    },
                    _ => r == StepAction::FloatArith(aop) && after == *self,
                }
            },
        }
    }
}

fn operand_exec(a: &crate::value::Arena, v: PhpValue) -> (r: Operand)
    requires
        data_handle_ok(a, v),
    ensures
        r == arith_operand(a, v),
{
    match v {
        PhpValue::Int(i) => Operand::Int(i),
        PhpValue::Float(_) => Operand::NeedsFloat,
        PhpValue::Null => Operand::Int(0),
        PhpValue::Bool(b) => Operand::Int(if b { 1 } else { 0 }),
        PhpValue::Str(h) => match parse_i64_exec(a.strings[h].as_str()) {
            Some(n) => if -2147483648i64 <= n && n <= 2147483647i64 {
                Operand::Int(n as i32)
            } else {
                Operand::NeedsFloat
            },
            None => Operand::NeedsFloat,
        },
        _ => Operand::NonNumeric,
    }
}

fn union_exec(a: &PhpArray, b: &PhpArray) -> (r: PhpArray)
    ensures
        r.view() == array_union(a.view(), b.view()),
{
    let mut out = PhpArray::new();
    let mut i: usize = 0;
    while i < a.elements.len()
        invariant
            i <= a.elements@.len(),
            out.view() == insert_all((seq![], 0i64), a.view().0, i as int),
        decreases a.elements@.len() - i,
    {
        out.insert(a.elements[i].0, a.elements[i].1);
        i = i + 1;
    }
    let ghost first = out.view();
    let mut j: usize = 0;
    while j < b.elements.len()
        invariant
            j <= b.elements@.len(),
            first == insert_all((seq![], 0i64), a.view().0, a.view().0.len() as int),
            out.view() == insert_missing(first, b.view().0, j as int),
        decreases b.elements@.len() - j,
    {
        if out.get(b.elements[j].0).is_none() {
            out.insert(b.elements[j].0, b.elements[j].1);
        }
        j = j + 1;
    }
    out
}

fn find_return_finally(fs: &Vec<crate::function::FinallyHandler>, ip: usize) -> (r: Option<usize>)
    ensures
        match r {
            Some(j) => return_finally(fs@, ip, 0) == Some(j as int) && j < fs@.len(),
            None => return_finally(fs@, ip, 0) is None,
        },
{
    let mut j: usize = 0;
    while j < fs.len()
        invariant
            j <= fs@.len(),
            return_finally(fs@, ip, 0) == return_finally(fs@, ip, j as int),
        decreases fs@.len() - j,
    {
        if ip > fs[j].start_ip && ip - 1 < fs[j].end_ip {
            return Some(j);
        }
        j = j + 1;
    }
    None
}

fn drop_locals_of(dl: &mut Vec<(usize, Vec<(String, PhpValue)>)>, k: usize)
    ensures
        final(dl)@ == drop_frame_locals(old(dl)@, k),
{
    let ghost orig = dl@;
    let n = dl.len();
    let mut i: usize = 0;
    let mut j: usize = 0;
    while i < dl.len()
        invariant
            orig.len() == n,
            j <= orig.len(),
            i == drop_frame_locals(orig.take(j as int), k).len(),
            dl@ == drop_frame_locals(orig.take(j as int), k) + orig.skip(j as int),
        decreases dl@.len() - i,
    {
        proof {
            assert(dl@.len() == i + orig.skip(j as int).len());
            assert(j < orig.len());
            assert(orig.take(j + 1).drop_last() =~= orig.take(j as int));
            assert(dl@[i as int] == orig[j as int]);
            assert(orig.take(j + 1).last() == orig[j as int]);
        }
        if dl[i].0 == k {
            let _gone = dl.remove(i);
            proof {
                assert(dl@ =~= drop_frame_locals(orig.take(j + 1), k) + orig.skip(j + 1));
            }
        } else {
            proof {
                assert(drop_frame_locals(orig.take(j + 1), k) =~= drop_frame_locals(orig.take(j as int), k).push(orig[j as int]));
                assert(dl@ =~= drop_frame_locals(orig.take(j + 1), k) + orig.skip(j + 1));
            }
            i = i + 1;
        }
        j = j + 1;
    }
    proof {
        assert(j == orig.len()) by {
            assert(dl@.len() == i + orig.skip(j as int).len());
        }
        assert(orig.take(j as int) =~= orig);
        assert(dl@ =~= drop_frame_locals(orig, k));
    }
}

impl VM {
    /// Runs one instruction of the running frame (see [`Fibre::stepped`]).
    pub fn step(fibre: &mut Fibre, op: Opcode) -> (r: StepAction)
        requires
            old(fibre).can_step(op),
        ensures
            old(fibre).stepped(op, *final(fibre), r),
    {
        let top = fibre.stack_top;
        let fc = fibre.frame_count;
        let fr = fibre.frames[fc - 1];
        match op {
            Opcode::Pop => {
                let v = fibre.stack[top - 1];
                fibre.stack_top = top - 1;
                match v {
                    PhpValue::Object(h) => StepAction::RunDestructor(h),
                    _ => StepAction::Continue,
                }
            },
            Opcode::Dup => {
                let v = fibre.stack[top - 1];
                Self::push(fibre, v);
                StepAction::Continue
            },
            Opcode::Swap => {
                let a = fibre.stack[top - 2];
                let b = fibre.stack[top - 1];
                fibre.stack.set(top - 2, b);
                fibre.stack.set(top - 1, a);
                StepAction::Continue
            },
            Opcode::Not => {
                assert(data_handle_ok(&fibre.arena, fibre.below_top(0)));
                let v = fibre.stack[top - 1];
                let t = is_truthy(&v, &fibre.arena);
                fibre.stack.set(top - 1, PhpValue::Bool(!t));
                StepAction::Continue
            },
            Opcode::Constant(idx) => {
                let c = fibre.engine_state.functions[fr.function.0].chunk.constants[idx as usize];
                let v = match c {
                    PhpValue::Array(_) => Self::deep_copy_value_depth(&mut fibre.arena, c, 0),
                    _ => c,
                };
                Self::push(fibre, v);
                StepAction::Continue
            },
            Opcode::GetLocal(i) => {
                let v = fibre.stack[fr.stack_window + i as usize];
                Self::push(fibre, v);
                StepAction::Continue
            },
            Opcode::SetLocal(i) => {
                let v = fibre.stack[top - 1];
                let nv = match v {
                    PhpValue::Array(_) => Self::deep_copy_value_depth(&mut fibre.arena, v, 0),
                    _ => v,
                };
                fibre.stack.set(fr.stack_window + i as usize, nv);
                fibre.stack.set(top - 1, nv);
                StepAction::Continue
            },
            Opcode::Jump(off) => {
                fibre.frames.set(fc - 1, CallFrame { ip: fr.ip + off as usize, ..fr });
                StepAction::Continue
            },
            Opcode::JumpIfFalse(off) => {
                assert(data_handle_ok(&fibre.arena, fibre.below_top(0)));
                let v = fibre.stack[top - 1];
                fibre.stack_top = top - 1;
                if !is_truthy(&v, &fibre.arena) {
                    fibre.frames.set(fc - 1, CallFrame { ip: fr.ip + off as usize, ..fr });
                }
                StepAction::Continue
            },
            Opcode::Loop(off) => {
                if off as usize > fr.ip {
                    let mut m = String::new();
                    append(&mut m, "Loop offset ");
                    append_decimal_u64(&mut m, off as u64);
                    append(&mut m, " > ip ");
                    append_decimal_u64(&mut m, fr.ip as u64);
                    return StepAction::Error(m);
                }
                fibre.frames.set(fc - 1, CallFrame { ip: fr.ip - off as usize, ..fr });
                StepAction::Continue
            },
            Opcode::ReturnValue | Opcode::Return => {
                let ret = match op {
                    Opcode::ReturnValue => {
                        let v = fibre.stack[top - 1];
                        fibre.stack_top = top - 1;
                        v
                    },
                    _ => PhpValue::Null,
                };
                let found = find_return_finally(&fibre.engine_state.functions[fr.function.0].chunk.finally_handlers, fr.ip);
                match found {
                    Some(j) => {
                        let target = fibre.engine_state.functions[fr.function.0].chunk.finally_handlers[j].finally_ip;
                        fibre.unwind_action = Some(UnwindAction::Return(ret));
                        fibre.frames.set(fc - 1, CallFrame { ip: target, ..fr });
                        return StepAction::Continue;
                    },
                    None => {},
                }
                drop_locals_of(&mut fibre.dynamic_locals, fc - 1);
                match Self::handle_return(fibre, ret) {
                    Some(_) => StepAction::Finished,
                    None => StepAction::Continue,
                }
            },
            Opcode::Compare(c) => {
                let a = fibre.stack[top - 2];
                let b = fibre.stack[top - 1];
                let known = match c {
                    CompareOp::Equal | CompareOp::NotEqual => match VM::loose_equals_step(&fibre.arena, a, b) {
                        LooseEq::Known(e) => Some(
                            match c {
                                CompareOp::Equal => e,
                                _ => !e,
                            },
                        ),
                        _ => None,
                    },
                    _ => match VM::compare_values_step(&fibre.arena, a, b) {
                        CompareStep::Known(o) => Some(
                            match c {
                                CompareOp::Less => o == Order::Less,
                                CompareOp::Greater => o == Order::Greater,
                                CompareOp::LessOrEqual => o != Order::Greater,
                                _ => o != Order::Less,
                            },
                        ),
                        _ => None,
                    },
                };
                match known {
                    Some(res) => {
                        fibre.stack.set(top - 2, PhpValue::Bool(res));
                        fibre.stack_top = top - 1;
                        StepAction::Continue
                    },
                    None => StepAction::Compare(c),
                }
            },
            Opcode::LogicalAnd | Opcode::LogicalOr => {
                let a = fibre.stack[top - 2];
                let b = fibre.stack[top - 1];
                assert(data_handle_ok(&fibre.arena, fibre.below_top(1)));
                assert(data_handle_ok(&fibre.arena, fibre.below_top(0)));
                let p = is_truthy(&a, &fibre.arena);
                let q = is_truthy(&b, &fibre.arena);
                let res = match op {
                    Opcode::LogicalAnd => p && q,
                    _ => p || q,
                };
                fibre.stack.set(top - 2, PhpValue::Bool(res));
                fibre.stack_top = top - 1;
                StepAction::Continue
            },
            Opcode::Add | Opcode::Subtract | Opcode::Multiply => {
                let aop = match op {
                    Opcode::Add => ArithOp::Add,
                    Opcode::Subtract => ArithOp::Subtract,
                    _ => ArithOp::Multiply,
                };
                let a = fibre.stack[top - 2];
                let b = fibre.stack[top - 1];
                assert(data_handle_ok(&fibre.arena, fibre.below_top(1)));
                assert(data_handle_ok(&fibre.arena, fibre.below_top(0)));
                let oa = operand_exec(&fibre.arena, a);
                let ob = operand_exec(&fibre.arena, b);
                match (oa, ob) {
                    (Operand::Int(x), Operand::Int(y)) => {
                        let n = match aop {
                            ArithOp::Add => x.wrapping_add(y),
                            ArithOp::Subtract => x.wrapping_sub(y),
                            ArithOp::Multiply => x.wrapping_mul(y),
                        };
                        fibre.stack.set(top - 2, PhpValue::Int(n));
                        fibre.stack_top = top - 1;
                        StepAction::Continue
                    },
                    (Operand::NonNumeric, _) | (_, Operand::NonNumeric) => {
                        let v = match (aop, a, b) {
                            (ArithOp::Add, PhpValue::Array(x), PhpValue::Array(y)) => {
                                let u = union_exec(&fibre.arena.arrays[x], &fibre.arena.arrays[y]);
                                crate::args::alloc_array(&mut fibre.arena, u)
                            },
                            _ => PhpValue::Null,
                        };
                        fibre.stack.set(top - 2, v);
                        fibre.stack_top = top - 1;
                        StepAction::Continue
                    },
                    _ => StepAction::FloatArith(aop),
                }
            },
        }
    }
}


/// How many operand bytes follow the opcode byte `b`; `None` when `b` names
/// no instruction. The encoding: 0 `Pop`, 1 `Dup`, 2 `Swap`, 3 `Not`,
/// 4 `Constant`, 5 `GetLocal`, 6 `SetLocal`, 7 `Jump`, 8 `JumpIfFalse`,
/// 9 `Loop`, 10 `Add`, 11 `Subtract`, 12 `Multiply`, 13 `ReturnValue`,
/// 14 `Return`, 15 to 20 the comparisons `==`, `!=`, `<`, `>`, `<=`, `>=`,
/// 21 `LogicalAnd`, 22 `LogicalOr`; a local's index is one byte, a constant index or an offset
/// two, high byte first.
pub open spec fn operand_len(b: u8) -> Option<int> {
    if b <= 3 || (10 <= b && b <= 22) {
        Some(0)
    } else if b == 5 || b == 6 {
        Some(1)
    } else if b == 4 || (7 <= b && b <= 9) {
        Some(2)
    } else {
        None
    }
}

/// The instruction with opcode byte `b` (one that names an instruction) and
/// the bytes `x` and `y` after it, of which it reads as many as it has operands.
pub open spec fn decode_op(b: u8, x: u8, y: u8) -> Opcode {
    let s = (x * 256 + y) as u16;
    if b == 0 {
        Opcode::Pop
    } else if b == 1 {
        Opcode::Dup
    } else if b == 2 {
        Opcode::Swap
    } else if b == 3 {
        Opcode::Not
    } else if b == 4 {
        Opcode::Constant(s)
    } else if b == 5 {
        Opcode::GetLocal(x)
    } else if b == 6 {
        Opcode::SetLocal(x)
    } else if b == 7 {
        Opcode::Jump(s)
    } else if b == 8 {
        Opcode::JumpIfFalse(s)
    } else if b == 9 {
        Opcode::Loop(s)
    } else if b == 10 {
        Opcode::Add
    } else if b == 11 {
        Opcode::Subtract
    } else if b == 12 {
        Opcode::Multiply
    } else if b == 13 {
        Opcode::ReturnValue
    } else if b == 14 {
        Opcode::Return
    } else if b == 15 {
        Opcode::Compare(CompareOp::Equal)
    } else if b == 16 {
        Opcode::Compare(CompareOp::NotEqual)
    } else if b == 17 {
        Opcode::Compare(CompareOp::Less)
    } else if b == 18 {
        Opcode::Compare(CompareOp::Greater)
    } else if b == 19 {
        Opcode::Compare(CompareOp::LessOrEqual)
    } else if b == 20 {
        Opcode::Compare(CompareOp::GreaterOrEqual)
    } else if b == 21 {
        Opcode::LogicalAnd
    } else {
        Opcode::LogicalOr
    }
}

/// Why a run of a fibre stopped.
#[derive(Debug)]
pub enum RunStop {
    /// The run ended as the engine reports it: finished (the last frame
    /// returned, or the frame count fell to the stop mark), preempted, or an
    /// error.
    Done(ExecutionResult),
    /// A popped object: the caller checks its destructor, then runs on.
    Destructor(usize),
    /// Floating-point arithmetic for the caller (see [`StepAction::FloatArith`]),
    /// which then runs on.
    FloatArith(ArithOp),
    /// A comparison for the caller (see [`StepAction::Compare`]), which
    /// then runs on.
    Compare(CompareOp),
    /// The code or the state cannot be run: no frame to read, an instruction
    /// that runs past the end of the code, or a state in which the
    /// instruction cannot run (see [`Fibre::can_step`]).
    Fault,
}

/// The outcome of reading the next instruction.
#[derive(Debug)]
pub enum Fetched {
    /// The instruction, with the instruction pointer moved past it.
    Op(Opcode),
    /// The run stops here.
    Stop(RunStop),
}

impl Fibre {
    /// `after` is this fibre with the running frame's instruction pointer
    /// moved forward by `n`, nothing else changed.
    pub open spec fn moved_past(&self, n: int, after: Fibre) -> bool {
        &&& after == (Fibre { frames: after.frames, ..*self })
        &&& after.frames@ == self.advanced(n)
    }

    /// Where a run stops before reading: no frame left, or no more frames
    /// than the stop mark of a synchronous call.
    pub open spec fn at_stop(&self) -> bool {
        ||| self.frame_count == 0
        ||| (self.stop_frame_count matches Some(s) && self.frame_count <= s)
    }

    /// Reading the next instruction: a fault when the running frame's code
    /// has no byte at its instruction pointer; an error when the byte names
    /// no instruction, past which the pointer moves; a fault when the
    /// operands run past the end of the code; otherwise the instruction,
    /// with the pointer moved past its operands.
    pub open spec fn fetched(&self, after: Fibre, f: Fetched) -> bool {
        if !self.can_read(1) {
            after == *self && f == Fetched::Stop(RunStop::Fault)
        } else {
            let code = self.current_code();
            let ip = self.current_ip();
            let b = code[ip];
            match operand_len(b) {
                None => {
                    &&& self.moved_past(1, after)
                    &&& f matches Fetched::Stop(RunStop::Done(ExecutionResult::Error(m)))
                    &&& m@ == "Unknown opcode: "@ + decimal_chars(b as nat)
                },
                Some(n) => if !self.can_read(1 + n) {
                    self.moved_past(1, after) && f == Fetched::Stop(RunStop::Fault)
                } else {
                    self.moved_past(1 + n, after) && f == Fetched::Op(decode_op(b, code[ip + 1], code[ip + 2]))
                },
            }
        }
    }

    /// A run of the interpreter from `self`, with `gas` loop iterations and
    /// `steps` instructions to spend, ends in `after` with `r`. Before each
    /// instruction: at a stop point (see [`Fibre::at_stop`]) the run is
    /// finished; with no steps left it is preempted. Then the instruction is
    /// read (see [`Fibre::fetched`]) and run (see [`Fibre::stepped`]): the
    /// run goes on after `Continue`, except that a backward jump that spends
    /// the last of the gas preempts it; a popped object, floating-point
    /// arithmetic or a comparison left to the caller hands the run to the
    /// caller; an error or the return of the last frame ends it.
    pub open spec fn ran(&self, gas: nat, steps: nat, after: Fibre, r: RunStop) -> bool
        decreases steps,
    {
        if self.at_stop() {
            after == *self && r == RunStop::Done(ExecutionResult::Finished)
        } else if steps == 0 {
            after == *self && r == RunStop::Done(ExecutionResult::Preempted)
        } else {
            exists|adv: Fibre, f: Fetched|
                #[trigger] self.fetched(adv, f) && match f {
                    Fetched::Stop(s) => after == adv && r == s,
                    Fetched::Op(op) => if !adv.can_step(op) {
                        after == adv && r == RunStop::Fault
                    } else {
                        exists|mid: Fibre, sr: StepAction|
                            #[trigger] adv.stepped(op, mid, sr) && match sr {
                                StepAction::Continue => if op is Loop {
                                    if gas <= 1 {
                                        after == mid && r == RunStop::Done(ExecutionResult::Preempted)
                                    } else {
                                        mid.ran((gas - 1) as nat, (steps - 1) as nat, after, r)
                                    }
                                } else {
                                    mid.ran(gas, (steps - 1) as nat, after, r)
                                },
                                StepAction::RunDestructor(h) => after == mid && r == RunStop::Destructor(h),
                                StepAction::FloatArith(a) => after == mid && r == RunStop::FloatArith(a),
                                StepAction::Compare(c) => after == mid && r == RunStop::Compare(c),
                                StepAction::Error(m) => after == mid && r == RunStop::Done(ExecutionResult::Error(m)),
                                StepAction::Finished => after == mid && r == RunStop::Done(ExecutionResult::Finished),
                            }
                    }
                }
        }
    }
}

fn handle_ok_exec(a: &crate::value::Arena, v: PhpValue) -> (r: bool)
    ensures
        r == data_handle_ok(a, v),
{
    match v {
        PhpValue::Str(h) => h < a.strings.len(),
        PhpValue::Array(h) => h < a.arrays.len(),
        _ => true,
    }
}

fn value_ok_exec(a: &crate::value::Arena, v: PhpValue) -> (r: bool)
    ensures
        r == value_ok(a, v),
{
    match v {
        PhpValue::Str(h) => h < a.strings.len(),
        PhpValue::Array(h) => h < a.arrays.len(),
        PhpValue::Object(h) => h < a.objects.len(),
        PhpValue::Closure(h) => h < a.closures.len(),
        _ => true,
    }
}

/// Whether `op` can run on `fibre` (see [`Fibre::can_step`]).
fn can_step_exec(fibre: &Fibre, op: Opcode) -> (r: bool)
    ensures
        r == fibre.can_step(op),
{
    let pops: usize = match op {
        Opcode::Pop | Opcode::Dup | Opcode::Not | Opcode::JumpIfFalse(_) | Opcode::SetLocal(_) | Opcode::ReturnValue => 1,
        Opcode::Swap | Opcode::Add | Opcode::Subtract | Opcode::Multiply | Opcode::Compare(_) | Opcode::LogicalAnd
        | Opcode::LogicalOr => 2,
        _ => 0,
    };
    assert(pops == pops_of(op));
    let fc = fibre.frame_count;
    if fc < 1 || fc > fibre.frames.len() {
        return false;
    }
    let fr = fibre.frames[fc - 1];
    if fr.function.0 >= fibre.engine_state.functions.len() {
        return false;
    }
    if !(fibre.stack_top <= fibre.stack.len() && fibre.stack.len() <= usize::MAX / 4) {
        return false;
    }
    if pops > fibre.stack_top {
        return false;
    }
    let mut i: usize = 0;
    while i < pops
        invariant
            pops <= fibre.stack_top <= fibre.stack@.len(),
            pops == pops_of(op),
            i <= pops,
            forall|k: int| 0 <= k < i ==> data_handle_ok(&fibre.arena, #[trigger] fibre.below_top(k)),
        decreases pops - i,
    {
        if !handle_ok_exec(&fibre.arena, fibre.stack[fibre.stack_top - 1 - i]) {
            assert(!data_handle_ok(&fibre.arena, fibre.below_top(i as int)));
            return false;
        }
        i = i + 1;
    }
    let nstack = fibre.stack.len();
    match op {
        Opcode::Constant(idx) => {
            (idx as usize) < fibre.engine_state.functions[fr.function.0].chunk.constants.len()
        },
        Opcode::GetLocal(i) | Opcode::SetLocal(i) => {
            fr.stack_window < nstack && (i as usize) < nstack - fr.stack_window
        },
        Opcode::ReturnValue | Opcode::Return => fr.stack_window <= nstack,
        Opcode::Jump(off) | Opcode::JumpIfFalse(off) => (off as usize) <= usize::MAX - fr.ip,
        Opcode::Compare(_) => value_ok_exec(&fibre.arena, fibre.stack[fibre.stack_top - 1]) && value_ok_exec(
            &fibre.arena,
            fibre.stack[fibre.stack_top - 2],
        ),
        _ => true,
    }
}

impl VM {
    /// Reads the next instruction of the running frame (see [`Fibre::fetched`]).
    pub fn fetch(fibre: &mut Fibre) -> (r: Fetched)
        ensures
            old(fibre).fetched(*final(fibre), r),
    {
        let fc = fibre.frame_count;
        if fc < 1 || fc > fibre.frames.len() {
            return Fetched::Stop(RunStop::Fault);
        }
        let fr = fibre.frames[fc - 1];
        if fr.function.0 >= fibre.engine_state.functions.len() {
            return Fetched::Stop(RunStop::Fault);
        }
        let len = fibre.engine_state.functions[fr.function.0].chunk.code.len();
        if fr.ip >= len {
            return Fetched::Stop(RunStop::Fault);
        }
        let b = fibre.engine_state.functions[fr.function.0].chunk.code[fr.ip];
        let n: usize = if b <= 3 || (10 <= b && b <= 22) {
            0
        } else if b == 5 || b == 6 {
            1
        } else if b == 4 || (7 <= b && b <= 9) {
            2
        } else {
            fibre.frames.set(fc - 1, CallFrame { ip: fr.ip + 1, ..fr });
            let mut m = String::new();
            append(&mut m, "Unknown opcode: ");
            append_decimal_u64(&mut m, b as u64);
            proof {
                assert(fibre.frames@ =~= old(fibre).advanced(1));
            }
            return Fetched::Stop(RunStop::Done(ExecutionResult::Error(m)));
        };
        if n > len - fr.ip - 1 {
            fibre.frames.set(fc - 1, CallFrame { ip: fr.ip + 1, ..fr });
            proof {
                assert(fibre.frames@ =~= old(fibre).advanced(1));
            }
            return Fetched::Stop(RunStop::Fault);
        }
        let x: u8 = if n >= 1 { fibre.engine_state.functions[fr.function.0].chunk.code[fr.ip + 1] } else { 0 };
        let y: u8 = if n >= 2 { fibre.engine_state.functions[fr.function.0].chunk.code[fr.ip + 2] } else { 0 };
        let s: u16 = (x as u16) * 256 + (y as u16);
        let op = if b == 0 {
            Opcode::Pop
        } else if b == 1 {
            Opcode::Dup
        } else if b == 2 {
            Opcode::Swap
        } else if b == 3 {
            Opcode::Not
        } else if b == 4 {
            Opcode::Constant(s)
        } else if b == 5 {
            Opcode::GetLocal(x)
        } else if b == 6 {
            Opcode::SetLocal(x)
        } else if b == 7 {
            Opcode::Jump(s)
        } else if b == 8 {
            Opcode::JumpIfFalse(s)
        } else if b == 9 {
            Opcode::Loop(s)
        } else if b == 10 {
            Opcode::Add
        } else if b == 11 {
            Opcode::Subtract
        } else if b == 12 {
            Opcode::Multiply
        } else if b == 13 {
            Opcode::ReturnValue
        } else if b == 14 {
            Opcode::Return
        } else if b == 15 {
            Opcode::Compare(CompareOp::Equal)
        } else if b == 16 {
            Opcode::Compare(CompareOp::NotEqual)
        } else if b == 17 {
            Opcode::Compare(CompareOp::Less)
        } else if b == 18 {
            Opcode::Compare(CompareOp::Greater)
        } else if b == 19 {
            Opcode::Compare(CompareOp::LessOrEqual)
        } else if b == 20 {
            Opcode::Compare(CompareOp::GreaterOrEqual)
        } else if b == 21 {
            Opcode::LogicalAnd
        } else {
            Opcode::LogicalOr
        };
        fibre.frames.set(fc - 1, CallFrame { ip: fr.ip + 1 + n, ..fr });
        proof {
            assert(fibre.frames@ =~= old(fibre).advanced(1 + n));
        }
        Fetched::Op(op)
    }

    /// Runs the fibre's interpreter loop (see [`Fibre::ran`]) with
    /// `gas_limit` loop iterations and at most `max_steps` instructions
    /// before it is preempted.
    pub fn run_fibre(fibre: &mut Fibre, gas_limit: usize, max_steps: usize) -> (r: RunStop)
        ensures
            old(fibre).ran(gas_limit as nat, max_steps as nat, *final(fibre), r),
    {
        let mut gas = gas_limit;
        let mut steps = max_steps;
        loop
            invariant
                forall|after: Fibre, r: RunStop|
                    #[trigger] fibre.ran(gas as nat, steps as nat, after, r) ==> old(fibre).ran(
                        gas_limit as nat, max_steps as nat, after, r),
            decreases steps,
        {
            let ghost cur = *fibre;
            let stop = match fibre.stop_frame_count {
                Some(s) => fibre.frame_count <= s,
                None => false,
            };
            if stop || fibre.frame_count == 0 {
                assert(cur.ran(gas as nat, steps as nat, *fibre, RunStop::Done(ExecutionResult::Finished)));
                return RunStop::Done(ExecutionResult::Finished);
            }
            if steps == 0 {
                assert(cur.ran(gas as nat, steps as nat, *fibre, RunStop::Done(ExecutionResult::Preempted)));
                return RunStop::Done(ExecutionResult::Preempted);
            }
            let f = Self::fetch(fibre);
            let ghost gf = f;
            let op = match f {
                Fetched::Stop(s) => {
                    assert(cur.fetched(*fibre, gf));
                    assert(cur.ran(gas as nat, steps as nat, *fibre, s));
                    return s;
                },
                Fetched::Op(op) => op,
            };
            let ghost adv = *fibre;
            if !can_step_exec(fibre, op) {
                assert(cur.fetched(adv, gf));
                assert(cur.ran(gas as nat, steps as nat, *fibre, RunStop::Fault));
                return RunStop::Fault;
            }
            let sr = Self::step(fibre, op);
            let ghost gsr = sr;
            proof {
                assert(cur.fetched(adv, gf));
                assert(adv.stepped(op, *fibre, gsr));
            }
            match sr {
                StepAction::Continue => {
                    let is_loop = match op {
                        Opcode::Loop(_) => true,
                        _ => false,
                    };
                    if is_loop && gas <= 1 {
                        assert(cur.ran(gas as nat, steps as nat, *fibre, RunStop::Done(ExecutionResult::Preempted)));
                        return RunStop::Done(ExecutionResult::Preempted);
                    }
                    let ghost g1 = gas;
                    if is_loop {
                        gas = gas - 1;
                    }
                    steps = steps - 1;
                    proof {
                        assert forall|after: Fibre, r: RunStop| #[trigger]
                            fibre.ran(gas as nat, steps as nat, after, r) implies cur.ran(
                            g1 as nat, (steps + 1) as nat, after, r) by {
                            assert(cur.fetched(adv, gf));
                            assert(adv.stepped(op, *fibre, gsr));
                        }
                    }
                },
                StepAction::RunDestructor(h) => {
                    assert(cur.ran(gas as nat, steps as nat, *fibre, RunStop::Destructor(h)));
                    return RunStop::Destructor(h);
                },
                StepAction::FloatArith(a) => {
                    assert(cur.ran(gas as nat, steps as nat, *fibre, RunStop::FloatArith(a)));
                    return RunStop::FloatArith(a);
                },
                StepAction::Compare(c) => {
                    assert(cur.ran(gas as nat, steps as nat, *fibre, RunStop::Compare(c)));
                    return RunStop::Compare(c);
                },
                StepAction::Error(m) => {
                    let r = RunStop::Done(ExecutionResult::Error(m));
                    assert(cur.ran(gas as nat, steps as nat, *fibre, r));
                    return r;
                },
                StepAction::Finished => {
                    assert(cur.ran(gas as nat, steps as nat, *fibre, RunStop::Done(ExecutionResult::Finished)));
                    return RunStop::Done(ExecutionResult::Finished);
                },
            }
        }
    }
}

impl Fibre {
    /// A synchronous drive of this fibre (see [`VM::drive_fibre_synchronously`])
    /// ends in `after` with `r`: the interpreter runs (see [`Fibre::ran`]),
    /// and a preempted run is resumed, up to `rounds` times.
    pub open spec fn drove(&self, gas: nat, steps: nat, rounds: nat, after: Fibre, r: RunStop) -> bool
        decreases rounds,
    {
        exists|mid: Fibre, s: RunStop|
            #[trigger] self.ran(gas, steps, mid, s) && if s == RunStop::Done(ExecutionResult::Preempted) && rounds > 0 {
                mid.drove(gas, steps, (rounds - 1) as nat, after, r)
            } else {
                after == mid && r == s
            }
    }
}

impl VM {
    /// Runs the fibre, resuming it each time it is preempted, at most
    /// `rounds` times (see [`Fibre::drove`]); any other stop ends the drive.
    pub fn drive_fibre_synchronously(fibre: &mut Fibre, gas_limit: usize, max_steps: usize, rounds: usize) -> (r: RunStop)
        ensures
            old(fibre).drove(gas_limit as nat, max_steps as nat, rounds as nat, *final(fibre), r),
    {
        let mut left = rounds;
        loop
            invariant
                forall|after: Fibre, r: RunStop|
                    #[trigger] fibre.drove(gas_limit as nat, max_steps as nat, left as nat, after, r) ==> old(fibre).drove(
                        gas_limit as nat,
                        max_steps as nat,
                        rounds as nat,
                        after,
                        r,
                    ),
            decreases left,
        {
            let ghost cur = *fibre;
            let s = Self::run_fibre(fibre, gas_limit, max_steps);
            let ghost mid = *fibre;
            let ghost gs = s;
            let preempted = match s {
                RunStop::Done(ExecutionResult::Preempted) => true,
                _ => false,
            };
            if !preempted || left == 0 {
                assert(cur.ran(gas_limit as nat, max_steps as nat, mid, gs));
                assert(cur.drove(gas_limit as nat, max_steps as nat, left as nat, *fibre, gs));
                return s;
            }
            let ghost l0 = left;
            left = left - 1;
            proof {
                assert forall|after: Fibre, r: RunStop|
                    #[trigger] fibre.drove(gas_limit as nat, max_steps as nat, left as nat, after, r) implies cur.drove(
                    gas_limit as nat,
                    max_steps as nat,
                    l0 as nat,
                    after,
                    r,
                ) by {
                    assert(cur.ran(gas_limit as nat, max_steps as nat, mid, gs));
                }
            }
        }
    }

    /// Runs a generator's fibre on until it stops (see
    /// [`VM::drive_fibre_synchronously`]).
    pub fn step_generator_fibre(gen_fibre: &mut Fibre, gas_limit: usize, max_steps: usize, rounds: usize) -> (r: RunStop)
        ensures
            old(gen_fibre).drove(gas_limit as nat, max_steps as nat, rounds as nat, *final(gen_fibre), r),
    {
        Self::drive_fibre_synchronously(gen_fibre, gas_limit, max_steps, rounds)
    }
}

/// Where a synchronous method call stands.
#[derive(Debug)]
pub enum SyncCall {
    /// The call ended: its value, or the error it ended with.
    Returned(Result<PhpValue, String>),
    /// The run stopped for the caller (`why`: a preemption, a popped object,
    /// floating-point arithmetic, a comparison, or a fault); once the caller
    /// has done its part, [`VM::resume_method_call`] goes on with `mark` and
    /// `outer_stop`.
    Suspended { mark: CallMark, outer_stop: Option<usize>, why: RunStop },
}

impl Fibre {
    /// This fibre with its stop mark set to `s`.
    pub open spec fn with_stop(&self, s: Option<usize>) -> Fibre {
        Fibre { stop_frame_count: s, ..*self }
    }

    /// After a run of a synchronous call stopped with `stop` in this state,
    /// the outer stop mark is put back and: a finished run, an error or an
    /// uncaught exception ends the call (see [`Fibre::call_finished`]); a
    /// preemption, a popped object, floating-point arithmetic, a comparison,
    /// a fault, or a stack top past the stack leaves it suspended for the
    /// caller.
    pub open spec fn call_settled(
        &self,
        mark: CallMark,
        outer_stop: Option<usize>,
        stop: RunStop,
        after: Fibre,
        c: SyncCall,
    ) -> bool {
        let restored = self.with_stop(outer_stop);
        let suspended = after == restored && c == (SyncCall::Suspended { mark, outer_stop, why: stop });
        match stop {
            RunStop::Done(res) => if res is Preempted {
                suspended
            } else if restored.stack_top > restored.stack@.len() {
                after == restored && c == (SyncCall::Suspended { mark, outer_stop, why: RunStop::Fault })
            } else {
                c matches SyncCall::Returned(x) && restored.call_finished(mark, res, after, x)
            },
            _ => suspended,
        }
    }

    /// Running a synchronous call on from this state: the interpreter runs
    /// with the stop mark at the call's frame count (see [`Fibre::ran`]),
    /// and the call settles (see [`Fibre::call_settled`]).
    pub open spec fn call_resumed(
        &self,
        mark: CallMark,
        outer_stop: Option<usize>,
        gas: nat,
        steps: nat,
        after: Fibre,
        c: SyncCall,
    ) -> bool {
        exists|ran_end: Fibre, stop: RunStop|
            #[trigger] self.with_stop(Some(mark.frame_count)).ran(gas, steps, ran_end, stop) && ran_end.call_settled(
                mark,
                outer_stop,
                stop,
                after,
                c,
            )
    }
}

impl VM {
    fn settle_call(fibre: &mut Fibre, mark: CallMark, outer_stop: Option<usize>, stop: RunStop) -> (c: SyncCall)
        ensures
            old(fibre).call_settled(mark, outer_stop, stop, *final(fibre), c),
    {
        fibre.stop_frame_count = outer_stop;
        match stop {
            RunStop::Done(res) => match res {
                ExecutionResult::Preempted => SyncCall::Suspended {
                    mark,
                    outer_stop,
                    why: RunStop::Done(ExecutionResult::Preempted),
                },
                _ => if fibre.stack_top > fibre.stack.len() {
                    SyncCall::Suspended { mark, outer_stop, why: RunStop::Fault }
                } else {
                    SyncCall::Returned(Self::finish_method_call(fibre, mark, res))
                },
            },
            _ => SyncCall::Suspended { mark, outer_stop, why: stop },
        }
    }

    /// Runs a synchronous call on (see [`Fibre::call_resumed`]): after
    /// [`VM::call_method_synchronously`] suspended it and the caller did its
    /// part.
    pub fn resume_method_call(
        fibre: &mut Fibre,
        mark: CallMark,
        outer_stop: Option<usize>,
        gas_limit: usize,
        max_steps: usize,
    ) -> (c: SyncCall)
        ensures
            old(fibre).call_resumed(mark, outer_stop, gas_limit as nat, max_steps as nat, *final(fibre), c),
    {
        fibre.stop_frame_count = Some(mark.frame_count);
        let ghost started = *fibre;
        let stop = Self::run_fibre(fibre, gas_limit, max_steps);
        let ghost ran_end = *fibre;
        let ghost gstop = stop;
        let c = Self::settle_call(fibre, mark, outer_stop, stop);
        assert(started == old(fibre).with_stop(Some(mark.frame_count)));
        assert(started.ran(gas_limit as nat, max_steps as nat, ran_end, gstop));
        c
    }

    /// Calls method `method_name` on `obj_val` with `args` and runs it until
    /// its frame returns: the call is begun (see [`VM::begin_method_call`];
    /// its errors come back as they are), the interpreter runs it with the
    /// stop mark at the frame count the call started from, the outer stop
    /// mark is put back and the call settles (see [`Fibre::call_resumed`]).
    pub fn call_method_synchronously(
        fibre: &mut Fibre,
        obj_val: PhpValue,
        method_name: &str,
        args: &[PhpValue],
        gas_limit: usize,
        max_steps: usize,
    ) -> (r: Result<SyncCall, String>)
        requires
            old(fibre).method_call_ok(obj_val, method_name@, args@),
        ensures
            match r {
                Err(m) => old(fibre).method_call_begun(obj_val, method_name@, args@, Err(m), *final(fibre)),
                Ok(c) => exists|mid: Fibre, mark: CallMark|
                    #[trigger] old(fibre).method_call_begun(obj_val, method_name@, args@, Ok(mark), mid)
                        && mid.call_resumed(
                        mark,
                        old(fibre).stop_frame_count,
                        gas_limit as nat,
                        max_steps as nat,
                        *final(fibre),
                        c,
                    ),
            },
    {
        let outer = fibre.stop_frame_count;
        match Self::begin_method_call(fibre, obj_val, method_name, args) {
            Err(m) => Err(m),
            Ok(mark) => {
                let ghost mid = *fibre;
                let c = Self::resume_method_call(fibre, mark, outer, gas_limit, max_steps);
                assert(old(fibre).method_call_begun(obj_val, method_name@, args@, Ok(mark), mid));
                Ok(c)
            },
        }
    }
}

} // verus!
