use vstd::prelude::*;
use crate::classes::FunctionPtr;
use crate::fibre::{CallFrame, ExecutionResult, Fibre, YieldReason, pushed_stack};
use crate::pad::push_raw;
use crate::throw::append;
use crate::value::PhpValue;
use crate::vm::VM;

verus! {

/// What the driver of a synchronous run does after the interpreter stops.
#[derive(Debug)]
pub enum DriveAction {
    /// The run is over with the result it stopped with.
    Finish,
    /// Compile and load the script at this path, then resume.
    CompileAndResume(String),
    /// Resume the fibre.
    Resume,
    /// Wait for the result of this database task, hand it to the fibre
    /// (see [`VM::deliver_db_result`]), then resume.
    AwaitDatabase(u64),
}

/// The view of a drive action.
pub open spec fn drive_action_of(res: ExecutionResult) -> DriveAction {
    match res {
        ExecutionResult::Yielded(YieldReason::AsyncInclude(p)) => DriveAction::CompileAndResume(p),
        ExecutionResult::Yielded(YieldReason::OutputFlush) => DriveAction::Resume,
        ExecutionResult::Yielded(YieldReason::Database(id)) => DriveAction::AwaitDatabase(id),
        ExecutionResult::Preempted => DriveAction::Resume,
        _ => DriveAction::Finish,
    }
}

/// The values a synchronous call starts from, to restore when it ends.
#[derive(Clone, Copy, PartialEq, Eq, Structural, Debug)]
pub struct CallMark {
    pub stack_top: usize,
    pub frame_count: usize,
}

/// The stack once `vals` are pushed from `top` on.
pub open spec fn pushed_all(s: Seq<PhpValue>, top: int, vals: Seq<PhpValue>) -> Seq<PhpValue>
    decreases vals.len(),
{
    if vals.len() == 0 {
        s
    } else {
        pushed_stack(pushed_all(s, top, vals.drop_last()), top + vals.len() - 1, vals.last())
    }
}

impl Fibre {
    /// Unwinding for `exc` as [`Fibre::unwound`] describes it, from this
    /// fibre with its arena replaced by `arena`.
    pub open spec fn unwound_with_arena(
        &self,
        arena: crate::value::Arena,
        after: &Fibre,
        exc: PhpValue,
        r: Option<ExecutionResult>,
    ) -> bool {
        Fibre { arena, ..*self }.unwound(after, exc, r)
    }
}

impl Fibre {
    /// Ending a synchronous call that the interpreter ran to `res`, from
    /// this fibre to `after` with `r`: the stack is cut back to the mark;
    /// when the run finished, the call's value is the top of the stack
    /// (`null` on an empty stack) and the frames stay; otherwise the frames
    /// are cut back to the mark too and the outcome is an error: the error
    /// or exception message, or for any other result a text naming it.
    pub open spec fn call_finished(&self, mark: CallMark, res: ExecutionResult, after: Fibre, r: Result<PhpValue, String>) -> bool {
        &&& after == (Fibre { stack_top: mark.stack_top, frame_count: after.frame_count, ..*self })
        &&& match res {
            ExecutionResult::Finished => {
                &&& r == Ok::<PhpValue, String>(
                    if self.stack_top == 0 {
                        PhpValue::Null
                    } else {
                        self.live().last()
                    },
                )
                &&& after.frame_count == self.frame_count
            },
            ExecutionResult::Error(e) => r matches Err(m) && m@ == e@ && after.frame_count == mark.frame_count,
            ExecutionResult::UncaughtException(e) => r matches Err(m) && m@ == e@ && after.frame_count == mark.frame_count,
            _ => r matches Err(m) && m@ == "Unexpected execution result in synchronous call: "@ + debug_result(res)
                && after.frame_count == mark.frame_count,
        }
    }
}

impl VM {
    /// What a synchronous run does after the interpreter stopped with
    /// `res`: an include is compiled and the run resumed; an output flush
    /// or a preemption resumes it; a database wait waits for the task; any
    /// other result ends the run.
    pub fn drive_action(res: &ExecutionResult) -> (r: DriveAction)
        ensures
            r == drive_action_of(*res),
    {
        match res {
            ExecutionResult::Yielded(YieldReason::AsyncInclude(p)) => DriveAction::CompileAndResume(p.clone()),
            ExecutionResult::Yielded(YieldReason::OutputFlush) => DriveAction::Resume,
            ExecutionResult::Yielded(YieldReason::Database(id)) => DriveAction::AwaitDatabase(*id),
            ExecutionResult::Preempted => DriveAction::Resume,
            _ => DriveAction::Finish,
        }
    }

    /// The result of a synchronous run whose included script failed to
    /// compile.
    pub fn failed_require(path: &str, err: &str) -> (r: ExecutionResult)
        ensures
            r matches ExecutionResult::Error(m) && m@ == "Fatal error: Failed to require '"@ + path@ + "': "@ + err@,
    {
        let mut m = String::new();
        append(&mut m, "Fatal error: Failed to require '");
        append(&mut m, path);
        append(&mut m, "': ");
        append(&mut m, err);
        ExecutionResult::Error(m)
    }

    /// Hands a database result to the fibre waiting for it: a value is
    /// pushed; an error message is thrown as a native error (see
    /// [`VM::create_and_throw_native_error`]).
    pub fn deliver_db_result(fibre: &mut Fibre, result: Result<PhpValue, String>)
        requires
            old(fibre).stack_ok(),
            old(fibre).frames_ok(),
            old(fibre).frame_functions_ok(),
            old(fibre).stack_handles_ok(),
            old(fibre).catches_resolvable(),
            result matches Err(m) ==> forall|mid: Fibre| #[trigger]
                old(fibre).native_error_made(m@, mid) ==> mid.resume_fits(
                    PhpValue::Object(old(fibre).arena.objects@.len() as usize),
                ),
        ensures
            match result {
                Ok(v) => {
                    &&& final(fibre).stack_top == old(fibre).stack_top + 1
                    &&& final(fibre).stack@ == pushed_stack(old(fibre).stack@, old(fibre).stack_top as int, v)
                    &&& final(fibre).frames == old(fibre).frames
                    &&& final(fibre).frame_count == old(fibre).frame_count
                    &&& final(fibre).arena == old(fibre).arena
                    &&& final(fibre).engine_state == old(fibre).engine_state
                },
                Err(msg) => {
                    let h = old(fibre).arena.objects@.len();
                    &&& old(fibre).native_error_made(msg@, Fibre { arena: final(fibre).arena, ..*old(fibre) })
                    &&& exists|r: Option<ExecutionResult>| #[trigger] old(fibre).unwound_with_arena(
                        final(fibre).arena,
                        &*final(fibre),
                        PhpValue::Object(h as usize),
                        r,
                    )
                },
            },
    {
        match result {
            Ok(v) => {
                Self::push(fibre, v);
            },
            Err(msg) => {
                let r = Self::create_and_throw_native_error(fibre, msg.as_str());
                assert(old(fibre).unwound_with_arena(fibre.arena, &*fibre, PhpValue::Object(old(fibre).arena.objects@.len() as usize), r));
            },
        }
    }

    /// Starts a synchronous call of `callable` with `args` through the
    /// call wrapper function `wrapper` (a function that calls the value
    /// below its arguments and returns what it returns): the callable and
    /// the arguments are pushed and a frame for the wrapper, of no
    /// arguments and no class, is entered above them. The mark to finish
    /// the call with (see [`VM::finish_callable_call`]) comes back; with no
    /// frame free, a stack overflow error, the values left pushed.
    pub fn begin_callable_call(fibre: &mut Fibre, callable: PhpValue, args: &[PhpValue], wrapper: FunctionPtr) -> (r: Result<
        CallMark,
        String,
    >)
        requires
            old(fibre).stack_top <= old(fibre).stack@.len(),
            old(fibre).frame_count <= old(fibre).frames@.len(),
            old(fibre).stack_top + args@.len() + 1 < usize::MAX / 4,
        ensures
            final(fibre).stack_top == old(fibre).stack_top + args@.len() + 1,
            final(fibre).stack@ == pushed_all(old(fibre).stack@, old(fibre).stack_top as int, seq![callable] + args@),
            final(fibre).arena == old(fibre).arena,
            final(fibre).engine_state == old(fibre).engine_state,
            if old(fibre).frame_count >= old(fibre).frames@.len() {
                &&& r matches Err(m) && m@ == "Stack overflow: max call depth exceeded"@
                &&& final(fibre).frames == old(fibre).frames
                &&& final(fibre).frame_count == old(fibre).frame_count
            } else {
                &&& r == Ok::<CallMark, String>(
                    CallMark { stack_top: old(fibre).stack_top, frame_count: old(fibre).frame_count },
                )
                &&& final(fibre).frame_count == old(fibre).frame_count + 1
                &&& final(fibre).frames@ == old(fibre).frames@.update(
                    old(fibre).frame_count as int,
                    CallFrame {
                        function: wrapper,
                        ip: 0,
                        stack_window: old(fibre).stack_top,
                        called_class_id: 0,
                        arity: 0,
                    },
                )
            },
    {
        let mark = CallMark { stack_top: fibre.stack_top, frame_count: fibre.frame_count };
        let ghost vals = seq![callable] + args@;
        push_raw(&mut fibre.stack, &mut fibre.stack_top, callable);
        proof {
            assert(vals.take(1).drop_last() =~= Seq::<PhpValue>::empty());
            assert(vals.take(1) =~= seq![callable]);
            assert(pushed_all(old(fibre).stack@, mark.stack_top as int, Seq::<PhpValue>::empty()) == old(fibre).stack@);
            assert(pushed_all(old(fibre).stack@, mark.stack_top as int, vals.take(1)) == pushed_stack(
                pushed_all(old(fibre).stack@, mark.stack_top as int, vals.take(1).drop_last()),
                mark.stack_top as int,
                callable,
            ));
        }
        let mut i: usize = 0;
        while i < args.len()
            invariant
                i <= args@.len(),
                vals == seq![callable] + args@,
                fibre.stack_top == mark.stack_top + i + 1,
                mark.stack_top + args@.len() + 1 < usize::MAX / 4,
                fibre.stack_top <= fibre.stack@.len(),
                fibre.stack@ == pushed_all(old(fibre).stack@, mark.stack_top as int, vals.take(i + 1)),
                mark.stack_top == old(fibre).stack_top,
                mark.frame_count == old(fibre).frame_count,
                fibre.frames == old(fibre).frames,
                fibre.frame_count == old(fibre).frame_count,
                fibre.arena == old(fibre).arena,
                fibre.engine_state == old(fibre).engine_state,
            decreases args@.len() - i,
        {
            push_raw(&mut fibre.stack, &mut fibre.stack_top, args[i]);
            proof {
                assert(vals.take(i + 2).drop_last() =~= vals.take(i + 1));
                assert(vals.take(i + 2).last() == args@[i as int]);
            }
            i = i + 1;
        }
        proof {
            assert(vals.take(args@.len() as int + 1) =~= vals);
        }
        if fibre.frame_count >= fibre.frames.len() {
            return Err("Stack overflow: max call depth exceeded".to_owned());
        }
        let fc = fibre.frame_count;
        fibre.frames.set(fc, CallFrame { function: wrapper, ip: 0, stack_window: mark.stack_top, called_class_id: 0, arity: 0 });
        fibre.frame_count = fc + 1;
        Ok(mark)
    }

    /// Ends a synchronous call of a callable that the interpreter ran to
    /// `res`: when it finished, its return value is popped and the stack
    /// cut back to the mark; otherwise the stack and the frames are cut
    /// back to the mark and the outcome reported as an error.
    pub fn finish_callable_call(fibre: &mut Fibre, mark: CallMark, res: ExecutionResult) -> (r: Result<PhpValue, String>)
        requires
            old(fibre).stack_top <= old(fibre).stack@.len(),
        ensures
            final(fibre).stack_top == mark.stack_top,
            final(fibre).stack == old(fibre).stack,
            final(fibre).frames == old(fibre).frames,
            final(fibre).arena == old(fibre).arena,
            final(fibre).engine_state == old(fibre).engine_state,
            match res {
                ExecutionResult::Finished => {
                    &&& r == Ok::<PhpValue, String>(
                        if old(fibre).stack_top == 0 {
                            PhpValue::Null
                        } else {
                            old(fibre).live().last()
                        },
                    )
                    &&& final(fibre).frame_count == old(fibre).frame_count
                },
                ExecutionResult::Error(e) => r matches Err(m) && m@ == e@ && final(fibre).frame_count == mark.frame_count,
                ExecutionResult::Yielded(_) => r matches Err(m) && m@ == "Yielded during synchronous call for unsupported reason"@
                    && final(fibre).frame_count == mark.frame_count,
                ExecutionResult::Preempted => r matches Err(m) && m@ == "Preempted during synchronous call"@
                    && final(fibre).frame_count == mark.frame_count,
                ExecutionResult::UncaughtException(e) => r matches Err(m) && m@ == "Uncaught exception: "@ + e@
                    && final(fibre).frame_count == mark.frame_count,
            },
    {
        match res {
            ExecutionResult::Finished => {
                let v = Self::pop(fibre);
                fibre.stack_top = mark.stack_top;
                Ok(v)
            },
            ExecutionResult::Error(e) => {
                fibre.stack_top = mark.stack_top;
                fibre.frame_count = mark.frame_count;
                Err(e)
            },
            ExecutionResult::Yielded(_) => {
                fibre.stack_top = mark.stack_top;
                fibre.frame_count = mark.frame_count;
                Err("Yielded during synchronous call for unsupported reason".to_owned())
            },
            ExecutionResult::Preempted => {
                fibre.stack_top = mark.stack_top;
                fibre.frame_count = mark.frame_count;
                Err("Preempted during synchronous call".to_owned())
            },
            ExecutionResult::UncaughtException(e) => {
                fibre.stack_top = mark.stack_top;
                fibre.frame_count = mark.frame_count;
                let mut m = String::new();
                append(&mut m, "Uncaught exception: ");
                append(&mut m, e.as_str());
                Err(m)
            },
        }
    }
}

/// `<str as Debug>::fmt`: a string quoted, with the characters that need
/// it escaped.
pub uninterp spec fn str_debug(s: Seq<char>) -> Seq<char>;

/// `<str as Debug>::fmt`, written to a new string (see [`str_debug`]).
/// Which characters it escapes, and how, is not stated here.
#[verifier::external_body]
pub(crate) fn str_debug_exec(s: &str) -> (r: String)
    ensures
        r@ == str_debug(s@),
{
    format!("{:?}", s)
}

/// How a yield reason is written for diagnostics: its name, then a
/// payload in brackets (a quoted path or a decimal task id).
pub open spec fn debug_reason(y: YieldReason) -> Seq<char> {
    match y {
        YieldReason::Network => "Network"@,
        YieldReason::Disk => "Disk"@,
        YieldReason::AsyncInclude(p) => "AsyncInclude("@ + str_debug(p@) + ")"@,
        YieldReason::Database(id) => "Database("@ + crate::throw::decimal_chars(id as nat) + ")"@,
        YieldReason::GeneratorYield => "GeneratorYield"@,
        YieldReason::OutputFlush => "OutputFlush"@,
        YieldReason::WaitForHttpRequest => "WaitForHttpRequest"@,
    }
}

/// How an execution result is written for diagnostics: its name, then a
/// payload in brackets (a yield reason, or a quoted message).
pub open spec fn debug_result(r: ExecutionResult) -> Seq<char> {
    match r {
        ExecutionResult::Finished => "Finished"@,
        ExecutionResult::Yielded(y) => "Yielded("@ + debug_reason(y) + ")"@,
        ExecutionResult::Preempted => "Preempted"@,
        ExecutionResult::Error(e) => "Error("@ + str_debug(e@) + ")"@,
        ExecutionResult::UncaughtException(e) => "UncaughtException("@ + str_debug(e@) + ")"@,
    }
}

fn debug_reason_exec(y: &YieldReason) -> (s: String)
    ensures
        s@ == debug_reason(*y),
{
    let mut out = String::new();
    match y {
        YieldReason::Network => append(&mut out, "Network"),
        YieldReason::Disk => append(&mut out, "Disk"),
        YieldReason::AsyncInclude(p) => {
            append(&mut out, "AsyncInclude(");
            let q = str_debug_exec(p.as_str());
            append(&mut out, q.as_str());
            append(&mut out, ")");
        },
        YieldReason::Database(id) => {
            append(&mut out, "Database(");
            crate::throw::append_decimal_u64(&mut out, *id);
            append(&mut out, ")");
        },
        YieldReason::GeneratorYield => append(&mut out, "GeneratorYield"),
        YieldReason::OutputFlush => append(&mut out, "OutputFlush"),
        YieldReason::WaitForHttpRequest => append(&mut out, "WaitForHttpRequest"),
    }
    proof {
        assert(out@ =~= debug_reason(*y));
    }
    out
}

/// Writes an execution result for diagnostics (see [`debug_result`]).
fn debug_result_exec(r: &ExecutionResult) -> (s: String)
    ensures
        s@ == debug_result(*r),
{
    let mut out = String::new();
    match r {
        ExecutionResult::Finished => append(&mut out, "Finished"),
        ExecutionResult::Yielded(y) => {
            append(&mut out, "Yielded(");
            let d = debug_reason_exec(y);
            append(&mut out, d.as_str());
            append(&mut out, ")");
        },
        ExecutionResult::Preempted => append(&mut out, "Preempted"),
        ExecutionResult::Error(e) => {
            append(&mut out, "Error(");
            let q = str_debug_exec(e.as_str());
            append(&mut out, q.as_str());
            append(&mut out, ")");
        },
        ExecutionResult::UncaughtException(e) => {
            append(&mut out, "UncaughtException(");
            let q = str_debug_exec(e.as_str());
            append(&mut out, q.as_str());
            append(&mut out, ")");
        },
    }
    proof {
        assert(out@ =~= debug_result(*r));
    }
    out
}

impl Fibre {
    /// The name a method-not-found error gives an object's class: its own
    /// name, else that of its class, else `Unknown`.
    pub open spec fn error_class_name(&self, o: crate::value::PhpObject, cid: usize) -> Seq<char> {
        match o.class_name {
            Some(n) => n@,
            None => if cid < self.engine_state.classes@.len() {
                self.engine_state.classes@[cid as int].name@
            } else {
                "Unknown"@
            },
        }
    }

    /// Which function a synchronous call of method `name` on `obj_val` runs,
    /// on which class, and whether it is the `__call` fallback: the method
    /// the object's class or an ancestor declares, when the current frame
    /// may call it; else the class's `__call`; else an error naming the
    /// missing method. A value that is no object is an error too.
    pub open spec fn method_dispatch(&self, obj_val: PhpValue, name: Seq<char>) -> Result<(FunctionPtr, usize, bool), Seq<char>> {
        let e = &self.engine_state;
        match obj_val {
            PhpValue::Object(h) => {
                let o = self.arena.objects@[h as int];
                let cid = self.obj_class_id(o);
                let direct = match crate::autoload::method_found(e, cid as int, name) {
                    Some(f) => if self.frame_count > 0 && crate::access::accessible(
                        self,
                        cid,
                        f,
                        (self.frame_count - 1) as usize,
                    ) != Some(true) {
                        None
                    } else {
                        Some(f)
                    },
                    None => None,
                };
                match direct {
                    Some(f) => Ok((f, cid, false)),
                    None => match crate::autoload::method_found(e, cid as int, "__call"@) {
                        Some(g) => Ok((g, cid, true)),
                        None => Err("Method "@ + self.error_class_name(o, cid) + "::"@ + name + " not found"@),
                    },
                }
            },
            _ => Err("Not an object"@),
        }
    }

    /// The lookups a method dispatch makes end, and the access check it
    /// makes can be decided.
    pub open spec fn dispatch_ok(&self, obj_val: PhpValue, name: Seq<char>) -> bool {
        let e = &self.engine_state;
        match obj_val {
            PhpValue::Object(h) => {
                let o = self.arena.objects@[h as int];
                let cid = self.obj_class_id(o);
                &&& h < self.arena.objects@.len()
                &&& e.method_lookup(cid as int, name) is Some
                &&& e.method_lookup(cid as int, "__call"@) is Some
                &&& self.frame_count <= self.frames@.len()
                &&& match crate::autoload::method_found(e, cid as int, name) {
                    Some(f) => f.0 < e.functions@.len() && (self.frame_count > 0 ==> crate::access::accessible(
                        self,
                        cid,
                        f,
                        (self.frame_count - 1) as usize,
                    ) is Some),
                    None => true,
                }
            },
            _ => true,
        }
    }
}

impl VM {
    /// Decides the function a synchronous method call runs (see
    /// [`Fibre::method_dispatch`]).
    pub fn dispatch_method(fibre: &Fibre, obj_val: PhpValue, method_name: &str) -> (r: Result<(FunctionPtr, usize, bool), String>)
        requires
            fibre.dispatch_ok(obj_val, method_name@),
        ensures
            match r {
                Ok(d) => fibre.method_dispatch(obj_val, method_name@) == Ok::<(FunctionPtr, usize, bool), Seq<char>>(d),
                Err(m) => fibre.method_dispatch(obj_val, method_name@) == Err::<(FunctionPtr, usize, bool), Seq<char>>(m@),
            },
    {
        let e = &fibre.engine_state;
        match obj_val {
            PhpValue::Object(h) => {
                let o = &fibre.arena.objects[h];
                let cid = Self::obj_class_id_loaded(fibre, o);
                let mut direct = match e.lookup_method(cid, method_name) {
                    Ok(Some(f)) => Some(f),
                    _ => None,
                };
                match direct {
                    Some(f) => {
                        if fibre.frame_count > 0 && !Self::is_method_accessible(fibre, cid, f, fibre.frame_count - 1) {
                            direct = None;
                        }
                    },
                    None => {},
                }
                match direct {
                    Some(f) => Ok((f, cid, false)),
                    None => {
                        proof {
                            reveal_strlit("__call");
                        }
                        match e.lookup_method(cid, "__call") {
                            Ok(Some(g)) => Ok((g, cid, true)),
                            _ => {
                                let mut m = String::new();
                                append(&mut m, "Method ");
                                match &o.class_name {
                                    Some(n) => append(&mut m, n.as_str()),
                                    None => if cid < e.classes.len() {
                                        append(&mut m, e.classes[cid].name.as_str());
                                    } else {
                                        append(&mut m, "Unknown");
                                    },
                                }
                                append(&mut m, "::");
                                append(&mut m, method_name);
                                append(&mut m, " not found");
                                Err(m)
                            },
                        }
                    },
                }
            },
            _ => Err("Not an object".to_owned()),
        }
    }

    /// Ends a synchronous method call that the interpreter ran to `res`:
    /// when it finished, its return value is popped and the stack cut back
    /// to the mark; otherwise the stack and the frames are cut back to the
    /// mark and the outcome reported as an error.
    pub fn finish_method_call(fibre: &mut Fibre, mark: CallMark, res: ExecutionResult) -> (r: Result<PhpValue, String>)
        requires
            old(fibre).stack_top <= old(fibre).stack@.len(),
        ensures
            old(fibre).call_finished(mark, res, *final(fibre), r),
    {
        match res {
            ExecutionResult::Finished => {
                let v = Self::pop(fibre);
                fibre.stack_top = mark.stack_top;
                Ok(v)
            },
            ExecutionResult::Error(e) => {
                fibre.stack_top = mark.stack_top;
                fibre.frame_count = mark.frame_count;
                Err(e)
            },
            ExecutionResult::UncaughtException(e) => {
                fibre.stack_top = mark.stack_top;
                fibre.frame_count = mark.frame_count;
                Err(e)
            },
            _ => {
                fibre.stack_top = mark.stack_top;
                fibre.frame_count = mark.frame_count;
                let mut m = String::new();
                append(&mut m, "Unexpected execution result in synchronous call: ");
                let d = debug_result_exec(&res);
                append(&mut m, d.as_str());
                Err(m)
            },
        }
    }
}

impl Fibre {
    /// The stack, its top and the heap once a method call's values are
    /// pushed: the object and the arguments; for `__call`, the object, the
    /// method name as a new string and the arguments as a new array.
    pub open spec fn method_call_state(&self, obj_val: PhpValue, name: Seq<char>, args: Seq<PhpValue>, magic: bool) -> (
        Seq<PhpValue>,
        int,
        crate::args::HeapView,
    ) {
        let h = crate::args::heap(&self.arena);
        let top = self.stack_top as int;
        if magic {
            let arr = crate::args::positional_array(args, 0, args.len() as int);
            let s1 = pushed_stack(self.stack@, top, obj_val);
            let s2 = pushed_stack(s1, top + 1, PhpValue::Str(h.0.len() as usize));
            let s3 = pushed_stack(s2, top + 2, PhpValue::Array(h.1.len() as usize));
            (s3, top + 3, (h.0.push(name), h.1.push(arr), h.2, h.3))
        } else {
            (pushed_all(self.stack@, top, seq![obj_val] + args), top + 1 + args.len(), h)
        }
    }

    /// How a synchronous method call starts, from this fibre to `after`
    /// with result `r` (see [`VM::begin_method_call`]): a dispatch error is
    /// returned with nothing changed; otherwise the call's values are
    /// pushed (see [`Fibre::method_call_state`]) and, with no frame free, a
    /// stack overflow error returned; with one, a frame for the function
    /// is entered on the object's class above them and prepared as a call,
    /// and the mark to finish it with returned.
    pub open spec fn method_call_begun(
        &self,
        obj_val: PhpValue,
        name: Seq<char>,
        args: Seq<PhpValue>,
        r: Result<CallMark, String>,
        after: Fibre,
    ) -> bool {
        match self.method_dispatch(obj_val, name) {
            Err(m) => r matches Err(e) && e@ == m && after == *self,
            Ok((f, cid, magic)) => {
                let st = self.method_call_state(obj_val, name, args, magic);
                let fc = self.frame_count;
                &&& after.engine_state == self.engine_state
                &&& after.arena.closures == self.arena.closures
                &&& if fc >= self.frames@.len() {
                    &&& r matches Err(e) && e@ == "Stack overflow: max call depth exceeded"@
                    &&& (after.stack@, after.stack_top as int, crate::args::heap(&after.arena)) == st
                    &&& after.frames == self.frames
                    &&& after.frame_count == fc
                } else {
                    &&& r == Ok::<CallMark, String>(CallMark { stack_top: self.stack_top, frame_count: fc })
                    &&& after.frame_count == fc + 1
                    &&& after.frames@ == self.frames@.update(
                        fc as int,
                        CallFrame {
                            function: f,
                            ip: 0,
                            stack_window: self.stack_top,
                            called_class_id: cid,
                            arity: if magic { 2 } else { args.len() as usize },
                        },
                    )
                    &&& crate::pad::pad_result(
                        &self.engine_state,
                        st,
                        self.stack_top + 1,
                        if magic { 2 } else { args.len() as int },
                        self.engine_state.functions@[f.0 as int],
                        Seq::empty(),
                        false,
                    ) == Some((after.stack@, after.stack_top as int, crate::args::heap(&after.arena)))
                }
            },
        }
    }

    /// What starting a synchronous method call needs: a dispatch that can
    /// be decided and, when it finds a function and a frame is free, a
    /// call that can be prepared within the machine's numbers.
    pub open spec fn method_call_ok(&self, obj_val: PhpValue, name: Seq<char>, args: Seq<PhpValue>) -> bool {
        &&& self.dispatch_ok(obj_val, name)
        &&& self.stack_top <= self.stack@.len()
        &&& self.stack_top + args.len() + 3 < usize::MAX / 4
        &&& match self.method_dispatch(obj_val, name) {
            Ok((f, cid, magic)) => {
                let func = self.engine_state.functions@[f.0 as int];
                let arity: int = if magic { 2 } else { args.len() as int };
                &&& f.0 < self.engine_state.functions@.len()
                &&& self.frame_count < self.frames@.len() ==> {
                    &&& self.stack_top + 4 + args.len() + func.num_locals + func.arity + func.params@.len() <= usize::MAX
                    &&& self.stack_top + 3 + args.len() + func.arity + func.params@.len() < usize::MAX / 4
                    &&& crate::pad::pad_result(
                        &self.engine_state,
                        self.method_call_state(obj_val, name, args, magic),
                        self.stack_top + 1,
                        arity,
                        func,
                        Seq::empty(),
                        false,
                    ) is Some
                }
            },
            Err(_) => true,
        }
    }
}

impl VM {
    /// Starts a synchronous call of method `method_name` on `obj_val` with
    /// `args` (see [`Fibre::method_dispatch`]): the object and arguments
    /// are pushed (for `__call`, the object, the name and an array of the
    /// arguments), a frame for the function is entered above them on the
    /// object's class and prepared as a call (see
    /// [`VM::pad_missing_arguments_and_locals`]). The mark to finish the
    /// call with (see [`VM::finish_method_call`]) comes back; with no
    /// frame free, a stack overflow error, the values left pushed.
    pub fn begin_method_call(fibre: &mut Fibre, obj_val: PhpValue, method_name: &str, args: &[PhpValue]) -> (r: Result<
        CallMark,
        String,
    >)
        requires
            old(fibre).method_call_ok(obj_val, method_name@, args@),
        ensures
            old(fibre).method_call_begun(obj_val, method_name@, args@, r, *final(fibre)),
    {
        let (f, cid, magic) = match Self::dispatch_method(fibre, obj_val, method_name) {
            Ok(d) => d,
            Err(m) => {
                return Err(m);
            },
        };
        let mark = CallMark { stack_top: fibre.stack_top, frame_count: fibre.frame_count };
        let ghost st = old(fibre).method_call_state(obj_val, method_name@, args@, magic);
        let arity: usize;
        if magic {
            push_raw(&mut fibre.stack, &mut fibre.stack_top, obj_val);
            let mut arr = crate::value::PhpArray::new();
            let mut i: usize = 0;
            while i < args.len()
                invariant
                    i <= args@.len(),
                    arr.view() == crate::args::positional_array(args@, 0, i as int),
                decreases args@.len() - i,
            {
                #[verifier::truncate]
                let key: i64 = i as i64;
                arr.insert(crate::value::ArrayKey::Int(key), args[i]);
                i = i + 1;
            }
            let arr_val = crate::args::alloc_array(&mut fibre.arena, arr);
            let name_val = crate::args::alloc_string(&mut fibre.arena, method_name.to_owned());
            push_raw(&mut fibre.stack, &mut fibre.stack_top, name_val);
            push_raw(&mut fibre.stack, &mut fibre.stack_top, arr_val);
            arity = 2;
        } else {
            let ghost vals = seq![obj_val] + args@;
            push_raw(&mut fibre.stack, &mut fibre.stack_top, obj_val);
            proof {
                assert(vals.take(1).drop_last() =~= Seq::<PhpValue>::empty());
                assert(vals.take(1) =~= seq![obj_val]);
                assert(pushed_all(old(fibre).stack@, mark.stack_top as int, Seq::<PhpValue>::empty()) == old(fibre).stack@);
                assert(pushed_all(old(fibre).stack@, mark.stack_top as int, vals.take(1)) == pushed_stack(
                    pushed_all(old(fibre).stack@, mark.stack_top as int, vals.take(1).drop_last()),
                    mark.stack_top as int,
                    obj_val,
                ));
            }
            let mut i: usize = 0;
            while i < args.len()
                invariant
                    i <= args@.len(),
                    vals == seq![obj_val] + args@,
                    fibre.stack_top == mark.stack_top + i + 1,
                    mark.stack_top + args@.len() + 3 < usize::MAX / 4,
                    fibre.stack_top <= fibre.stack@.len(),
                    fibre.stack@ == pushed_all(old(fibre).stack@, mark.stack_top as int, vals.take(i + 1)),
                    mark.stack_top == old(fibre).stack_top,
                    mark.frame_count == old(fibre).frame_count,
                    fibre.frames == old(fibre).frames,
                    fibre.frame_count == old(fibre).frame_count,
                    fibre.arena == old(fibre).arena,
                    fibre.engine_state == old(fibre).engine_state,
                    fibre.autoloaders == old(fibre).autoloaders,
                    fibre.autoload_state == old(fibre).autoload_state,
                    fibre.autoload_frame_depths == old(fibre).autoload_frame_depths,
                    fibre.unwind_action == old(fibre).unwind_action,
                    fibre.dynamic_locals == old(fibre).dynamic_locals,
                decreases args@.len() - i,
            {
                push_raw(&mut fibre.stack, &mut fibre.stack_top, args[i]);
                proof {
                    assert(vals.take(i + 2).drop_last() =~= vals.take(i + 1));
                    assert(vals.take(i + 2).last() == args@[i as int]);
                }
                i = i + 1;
            }
            proof {
                assert(vals.take(args@.len() as int + 1) =~= vals);
            }
            arity = args.len();
        }
        assert((fibre.stack@, fibre.stack_top as int, crate::args::heap(&fibre.arena)) == st);
        if fibre.frame_count >= fibre.frames.len() {
            return Err("Stack overflow: max call depth exceeded".to_owned());
        }
        let fc = fibre.frame_count;
        let frame = CallFrame { function: f, ip: 0, stack_window: mark.stack_top, called_class_id: cid, arity };
        fibre.frames.set(fc, frame);
        fibre.frame_count = fc + 1;
        let no_upvalues: &[PhpValue] = &[];
        assert(no_upvalues@ =~= Seq::<PhpValue>::empty());
        Self::pad_missing_arguments_and_locals(fibre, arity, f.0, no_upvalues, false);
        assert(fibre.frames@ =~= old(fibre).frames@.update(fc as int, frame));
        Ok(mark)
    }
}

} // verus!
