use vstd::prelude::*;
use crate::args::{alloc_object, alloc_string, heap, object_view};
use crate::fibre::{CallFrame, ExecutionResult, Fibre, UnwindAction};
use crate::function::{ExceptionHandler, FinallyHandler};
use crate::instance::{class_of, is_relative_keyword, names_of, reaches, unloaded_from};
use crate::external::index_entries;
use crate::names::{chars_of, normalized, push_char, str_equal};
use crate::sapi::string_of;
use crate::sync::{str_debug, str_debug_exec};
use crate::resolve::value_ok;
use crate::value::{PhpObject, PhpValue};
use crate::vm::VM;

verus! {

/// The first `catch` region at index `i` or later that covers `ip` and
/// takes the exception: no class (a catch-all) or one it is an instance of.
pub open spec fn catch_from(f: &Fibre, hs: Seq<ExceptionHandler>, ip: usize, exc: PhpValue, i: int) -> Option<int>
    decreases hs.len() - i,
{
    if i < 0 || i >= hs.len() {
        None
    } else if hs[i].start_ip <= ip <= hs[i].end_ip && (hs[i].catch_class@.len() == 0 || f.instance_of(
        exc,
        hs[i].catch_class@,
    )) {
        Some(i)
    } else {
        catch_from(f, hs, ip, exc, i + 1)
    }
}

/// The first `finally` region at index `i` or later that covers `ip`.
pub open spec fn finally_from(fs: Seq<FinallyHandler>, ip: usize, i: int) -> Option<int>
    decreases fs.len() - i,
{
    if i < 0 || i >= fs.len() {
        None
    } else if fs[i].start_ip <= ip <= fs[i].end_ip {
        Some(i)
    } else {
        finally_from(fs, ip, i + 1)
    }
}

/// Where an exception resumes: the instruction, whether it is a `finally`
/// block, and the operand stack depth to restore.
pub type ResumePoint = (usize, bool, usize);

impl Fibre {
    /// Where an exception thrown in frame `cf - 1` resumes in that frame:
    /// at the innermost matching `catch`, unless the innermost `finally`
    /// region does not enclose it, in which case at that `finally`. The
    /// depth restored is that of the `catch` when there is one.
    pub open spec fn frame_target(&self, cf: int, exc: PhpValue) -> Option<ResumePoint> {
        let fr = self.frames@[cf - 1];
        let ch = self.engine_state.functions@[fr.function.0 as int].chunk;
        let hs = ch.exception_handlers@;
        let fs = ch.finally_handlers@;
        match catch_from(self, hs, fr.ip, exc, 0) {
            Some(ci) => match finally_from(fs, fr.ip, 0) {
                Some(fj) => if hs[ci].start_ip >= fs[fj].start_ip && hs[ci].end_ip <= fs[fj].end_ip {
                    Some((hs[ci].catch_ip, false, hs[ci].stack_depth))
                } else {
                    Some((fs[fj].finally_ip, true, hs[ci].stack_depth))
                },
                None => Some((hs[ci].catch_ip, false, hs[ci].stack_depth)),
            },
            None => match finally_from(fs, fr.ip, 0) {
                Some(fj) => Some((fs[fj].finally_ip, true, fs[fj].stack_depth)),
                None => None,
            },
        }
    }

    /// The topmost of the first `cf` frames in which the exception
    /// resumes, counted from 1.
    pub open spec fn handler_frame(&self, exc: PhpValue, cf: int) -> Option<int>
        decreases cf,
    {
        if cf <= 0 {
            None
        } else if self.frame_target(cf, exc) is Some {
            Some(cf)
        } else {
            self.handler_frame(exc, cf - 1)
        }
    }

    /// The stack top an exception resumes at in frame `cf - 1`: past the
    /// frame's `$this` slot and locals, plus the depth restored.
    pub open spec fn resume_base(&self, cf: int, depth: usize) -> int {
        let fr = self.frames@[cf - 1];
        let nl = self.engine_state.functions@[fr.function.0 as int].num_locals;
        fr.stack_window + 1 + (if nl > fr.arity {
            nl
        } else {
            fr.arity
        }) + depth
    }

    /// Every `catch` class that is a relative keyword can be resolved.
    pub open spec fn catches_resolvable(&self) -> bool {
        forall|i: int, j: int|
            0 <= i < self.engine_state.functions@.len() && 0 <= j
                < self.engine_state.functions@[i].chunk.exception_handlers@.len() ==> {
                let c = #[trigger] self.engine_state.functions@[i].chunk.exception_handlers@[j].catch_class@;
                is_relative_keyword(c) ==> self.resolvable(c)
            }
    }

    /// What unwinding needs: the frames, the stack and the handles are
    /// sound, and the place the exception resumes at fits the stack.
    pub open spec fn can_unwind(&self, exc: PhpValue) -> bool {
        &&& self.frames_ok()
        &&& self.frame_functions_ok()
        &&& self.stack_handles_ok()
        &&& self.catches_resolvable()
        &&& value_ok(&self.arena, exc)
        &&& self.stack@.len() <= usize::MAX / 4
        &&& self.resume_fits(exc)
    }

    /// The place `exc` resumes at fits: after a `catch` the stack top lies
    /// within the stack, after a `finally` it fits a `usize`.
    pub open spec fn resume_fits(&self, exc: PhpValue) -> bool {
        match self.handler_frame(exc, self.frame_count as int) {
            Some(cf) => {
                let (_, fin, depth) = self.frame_target(cf, exc)->0;
                if fin {
                    self.resume_base(cf, depth) <= usize::MAX
                } else {
                    self.resume_base(cf, depth) <= self.stack@.len()
                }
            },
            None => true,
        }
    }
}

impl Fibre {
    /// What unwinding the stack for `exc` from this fibre does, giving
    /// `after` and the result `r`: when some frame takes the exception,
    /// that frame becomes the top one and resumes at its `catch` (with the
    /// exception pushed) or `finally` (with the exception kept to be
    /// rethrown), the operand stack cut back to the handler's depth and
    /// the run-time variables of the frames left dropped; otherwise nothing
    /// changes and `r` reports the uncaught exception.
    pub open spec fn unwound(&self, after: &Fibre, exc: PhpValue, r: Option<ExecutionResult>) -> bool {
        match self.handler_frame(exc, self.frame_count as int) {
            Some(cf) => {
                let (tip, fin, depth) = self.frame_target(cf, exc)->0;
                let fr = self.frames@[cf - 1];
                let base = self.resume_base(cf, depth);
                &&& r is None
                &&& after.frame_count == cf
                &&& after.frames@ == self.frames@.update(cf - 1, CallFrame { ip: tip, ..fr })
                &&& after.dynamic_locals@ == keep_below(self.dynamic_locals@, cf as usize)
                &&& after.engine_state == self.engine_state
                &&& after.arena == self.arena
                &&& after.autoload_frame_depths == self.autoload_frame_depths
                &&& if fin {
                    &&& after.unwind_action == Some(UnwindAction::Throw(exc))
                    &&& after.stack_top == base
                    &&& after.stack == self.stack
                } else {
                    &&& after.unwind_action is None
                    &&& after.stack_top == base + 1
                    &&& after.live() == self.stack@.take(base).push(exc)
                }
            },
            None => {
                &&& r matches Some(ExecutionResult::UncaughtException(m)) && m@ == self.uncaught_message(exc)
                &&& *after == *self
            },
        }
    }
}

/// The entries made by frames below `n`, in order.
pub open spec fn keep_below<T>(s: Seq<(usize, T)>, n: usize) -> Seq<(usize, T)>
    decreases s.len(),
{
    if s.len() == 0 {
        s
    } else {
        let rest = keep_below(s.drop_last(), n);
        if s.last().0 < n {
            rest.push(s.last())
        } else {
            rest
        }
    }
}

/// The ASCII decimal digits of `n`.
pub open spec fn decimal_chars(n: nat) -> Seq<char>
    decreases n,
{
    if n < 10 {
        seq![((48 + n) as u32) as char]
    } else {
        decimal_chars(n / 10).push(((48 + n % 10) as u32) as char)
    }
}

/// The first property called `name`.
pub open spec fn property_from(props: Seq<(String, PhpValue)>, name: Seq<char>, i: int) -> Option<PhpValue>
    decreases props.len() - i,
{
    if i < 0 || i >= props.len() {
        None
    } else if props[i].0@ == name {
        Some(props[i].1)
    } else {
        property_from(props, name, i + 1)
    }
}

/// The quoted form of each of the first `n` strings, joined by `, `.
pub open spec fn quoted_list(items: Seq<Seq<char>>, n: int) -> Seq<char>
    decreases n,
{
    if n <= 0 || n > items.len() {
        Seq::empty()
    } else if n == 1 {
        str_debug(items[0])
    } else {
        quoted_list(items, n - 1) + ", "@ + str_debug(items[n - 1])
    }
}

/// How a list of strings is written for diagnostics (its `Debug` form):
/// each string quoted (see [`str_debug`]), joined by `, `, in brackets.
pub open spec fn debug_strings(items: Seq<Seq<char>>) -> Seq<char> {
    "["@ + quoted_list(items, items.len() as int) + "]"@
}

/// How a value is written for diagnostics: the variant's name, then its
/// payload in brackets — `true` or `false`, or decimal digits (a float by
/// its bits, a string, array, object or closure by its handle).
pub open spec fn debug_value(v: PhpValue) -> Seq<char> {
    match v {
        PhpValue::Null => "Null"@,
        PhpValue::Bool(b) => "Bool("@ + (if b { "true"@ } else { "false"@ }) + ")"@,
        PhpValue::Int(i) => "Int("@ + signed_decimal_chars(i as int) + ")"@,
        PhpValue::Float(bits) => "Float("@ + decimal_chars(bits as nat) + ")"@,
        PhpValue::Str(h) => "Str("@ + decimal_chars(h as nat) + ")"@,
        PhpValue::Array(h) => "Array("@ + decimal_chars(h as nat) + ")"@,
        PhpValue::Object(h) => "Object("@ + decimal_chars(h as nat) + ")"@,
        PhpValue::Closure(h) => "Closure("@ + decimal_chars(h as nat) + ")"@,
    }
}

/// The decimal digits of an integer, after a `-` when it is negative.
pub open spec fn signed_decimal_chars(i: int) -> Seq<char> {
    if i < 0 {
        "-"@ + decimal_chars((-i) as nat)
    } else {
        decimal_chars(i as nat)
    }
}

/// The name of a value's type.
pub open spec fn kind_name(v: PhpValue) -> Seq<char> {
    match v {
        PhpValue::Null => "Null"@,
        PhpValue::Bool(_) => "Bool"@,
        PhpValue::Int(_) => "Int"@,
        PhpValue::Float(_) => "Float"@,
        PhpValue::Str(_) => "String"@,
        PhpValue::Array(_) => "Array"@,
        PhpValue::Object(_) => "Object"@,
        PhpValue::Closure(_) => "Closure"@,
    }
}

impl Fibre {
    /// The class an exception object reports: its own name, else that of
    /// its class, else `Exception`.
    pub open spec fn exception_class(&self, o: PhpObject) -> Seq<char> {
        match o.class_name {
            Some(n) => n@,
            None => if o.class_id < self.engine_state.classes@.len() {
                self.engine_state.classes@[o.class_id as int].name@
            } else {
                "Exception"@
            },
        }
    }

    /// The first line of the report of an uncaught exception.
    pub open spec fn uncaught_headline(&self, exc: PhpValue) -> Seq<char> {
        match exc {
            PhpValue::Object(h) => {
                let o = self.arena.objects@[h as int];
                let cls = self.exception_class(o);
                match property_from(o.properties@, "message"@, 0) {
                    Some(PhpValue::Str(m)) => cls + ": "@ + self.arena.strings@[m as int]@,
                    Some(_) => cls + ": (non-string message property)"@,
                    None => cls + ": (no message property, properties="@ + debug_strings(
                        o.properties@.map_values(|p: (String, PhpValue)| p.0@),
                    ) + ")"@,
                }
            },
            PhpValue::Str(h) => "Uncaught Exception: "@ + self.arena.strings@[h as int]@,
            _ => "Uncaught Exception (not an object: val="@ + debug_value(exc) + ", type="@ + kind_name(exc) + ")"@,
        }
    }

    /// The stack-trace line of frame `i`.
    pub open spec fn trace_line(&self, i: int) -> Seq<char> {
        let fr = self.frames@[i];
        "  #"@ + decimal_chars(i as nat) + " "@ + self.engine_state.functions@[fr.function.0 as int].name@ + " (ip="@
            + decimal_chars(fr.ip as nat) + ")"@
    }

    /// The trace lines of frames `i - 1` down to 0, joined by newlines.
    pub open spec fn trace_from(&self, i: int) -> Seq<char>
        decreases i,
    {
        if i <= 0 {
            Seq::empty()
        } else if i == 1 {
            self.trace_line(0)
        } else {
            self.trace_line(i - 1) + "\n"@ + self.trace_from(i - 1)
        }
    }

    /// The report of an uncaught exception: its headline, then the stack
    /// trace from the top frame down when there are frames.
    pub open spec fn uncaught_message(&self, exc: PhpValue) -> Seq<char> {
        if self.frame_count == 0 {
            self.uncaught_headline(exc)
        } else {
            self.uncaught_headline(exc) + "\nStack trace:\n"@ + self.trace_from(self.frame_count as int)
        }
    }
}

/// Appends a string.
pub(crate) fn append(out: &mut String, s: &str)
    ensures
        final(out)@ == old(out)@ + s@,
{
    let cs = chars_of(s);
    let mut i: usize = 0;
    while i < cs.len()
        invariant
            cs@ == s@,
            i <= cs@.len(),
            out@ == old(out)@ + s@.take(i as int),
        decreases cs@.len() - i,
    {
        push_char(out, cs[i]);
        proof {
            assert(s@.take(i as int + 1) =~= s@.take(i as int).push(s@[i as int]));
        }
        i = i + 1;
    }
    proof {
        assert(s@.take(s@.len() as int) =~= s@);
    }
}

/// Appends the decimal digits of `n`.
fn append_decimal(out: &mut String, n: usize)
    ensures
        final(out)@ == old(out)@ + decimal_chars(n as nat),
    decreases n,
{
    if n >= 10 {
        append_decimal(out, n / 10);
    }
    let d: u32 = (n % 10) as u32;
    let c: char = ((48 + d) as u8) as char;
    push_char(out, c);
    proof {
        assert(c == ((48 + n % 10) as u32) as char);
        assert(final(out)@ =~= old(out)@ + decimal_chars(n as nat));
    }
}

/// Writes a list of strings for diagnostics (see [`debug_strings`]).
fn debug_strings_exec(items: &Vec<String>) -> (r: String)
    ensures
        r@ == debug_strings(items@.map_values(|s: String| s@)),
{
    let ghost v = items@.map_values(|s: String| s@);
    let mut out = String::new();
    append(&mut out, "[");
    let mut i: usize = 0;
    while i < items.len()
        invariant
            i <= items@.len(),
            v == items@.map_values(|s: String| s@),
            out@ == "["@ + quoted_list(v, i as int),
        decreases items@.len() - i,
    {
        if i > 0 {
            append(&mut out, ", ");
        }
        let q = str_debug_exec(items[i].as_str());
        append(&mut out, q.as_str());
        proof {
            assert(v[i as int] == items@[i as int]@);
            if i > 0 {
                assert(out@ =~= "["@ + quoted_list(v, i as int + 1));
            } else {
                assert(out@ =~= "["@ + quoted_list(v, i as int + 1));
            }
        }
        i = i + 1;
    }
    append(&mut out, "]");
    proof {
        assert(out@ =~= debug_strings(v));
    }
    out
}

/// Writes a value for diagnostics (see [`debug_value`]).
pub(crate) fn debug_value_exec(v: PhpValue) -> (r: String)
    ensures
        r@ == debug_value(v),
{
    let mut out = String::new();
    match v {
        PhpValue::Null => append(&mut out, "Null"),
        PhpValue::Bool(b) => {
            append(&mut out, "Bool(");
            append(&mut out, if b { "true" } else { "false" });
            append(&mut out, ")");
        },
        PhpValue::Int(i) => {
            append(&mut out, "Int(");
            let wide: i64 = i as i64;
            if wide < 0 {
                append(&mut out, "-");
                append_decimal_u64(&mut out, (-wide) as u64);
            } else {
                append_decimal_u64(&mut out, wide as u64);
            }
            append(&mut out, ")");
        },
        PhpValue::Float(bits) => {
            append(&mut out, "Float(");
            append_decimal_u64(&mut out, bits);
            append(&mut out, ")");
        },
        PhpValue::Str(h) => {
            append(&mut out, "Str(");
            append_decimal(&mut out, h);
            append(&mut out, ")");
        },
        PhpValue::Array(h) => {
            append(&mut out, "Array(");
            append_decimal(&mut out, h);
            append(&mut out, ")");
        },
        PhpValue::Object(h) => {
            append(&mut out, "Object(");
            append_decimal(&mut out, h);
            append(&mut out, ")");
        },
        PhpValue::Closure(h) => {
            append(&mut out, "Closure(");
            append_decimal(&mut out, h);
            append(&mut out, ")");
        },
    }
    proof {
        assert(out@ =~= debug_value(v));
    }
    out
}

/// Appends the decimal digits of `n`.
pub(crate) fn append_decimal_u64(out: &mut String, n: u64)
    ensures
        final(out)@ == old(out)@ + decimal_chars(n as nat),
    decreases n,
{
    if n >= 10 {
        append_decimal_u64(out, n / 10);
    }
    let d: u32 = (n % 10) as u32;
    let c: char = ((48 + d) as u8) as char;
    push_char(out, c);
    proof {
        assert(c == ((48 + n % 10) as u32) as char);
        assert(final(out)@ =~= old(out)@ + decimal_chars(n as nat));
    }
}

fn kind_name_exec(v: PhpValue) -> (r: &'static str)
    ensures
        r@ == kind_name(v),
{
    match v {
        PhpValue::Null => "Null",
        PhpValue::Bool(_) => "Bool",
        PhpValue::Int(_) => "Int",
        PhpValue::Float(_) => "Float",
        PhpValue::Str(_) => "String",
        PhpValue::Array(_) => "Array",
        PhpValue::Object(_) => "Object",
        PhpValue::Closure(_) => "Closure",
    }
}

pub(crate) fn property_exec(props: &Vec<(String, PhpValue)>, name: &str) -> (r: Option<PhpValue>)
    ensures
        r == property_from(props@, name@, 0),
{
    let mut i: usize = 0;
    while i < props.len()
        invariant
            i <= props@.len(),
            property_from(props@, name@, 0) == property_from(props@, name@, i as int),
        decreases props@.len() - i,
    {
        if str_equal(props[i].0.as_str(), name) {
            return Some(props[i].1);
        }
        i = i + 1;
    }
    None
}

fn property_names(props: &Vec<(String, PhpValue)>) -> (r: Vec<String>)
    ensures
        r@.map_values(|s: String| s@) == props@.map_values(|p: (String, PhpValue)| p.0@),
{
    let mut out: Vec<String> = Vec::new();
    let mut i: usize = 0;
    while i < props.len()
        invariant
            i <= props@.len(),
            out@.map_values(|s: String| s@) == props@.take(i as int).map_values(|p: (String, PhpValue)| p.0@),
        decreases props@.len() - i,
    {
        let ghost prev = out@;
        out.push(props[i].0.clone());
        proof {
            assert(out@ == prev.push(props@[i as int].0));
            assert(out@.map_values(|s: String| s@) =~= prev.map_values(|s: String| s@).push(props@[i as int].0@));
            assert(props@.take(i as int + 1) =~= props@.take(i as int).push(props@[i as int]));
            assert(out@.map_values(|s: String| s@) =~= props@.take(i as int + 1).map_values(|p: (String, PhpValue)| p.0@));
        }
        i = i + 1;
    }
    proof {
        assert(props@.take(props@.len() as int) =~= props@);
    }
    out
}

fn uncaught_headline_exec(fibre: &Fibre, exc: PhpValue) -> (r: String)
    requires
        value_ok(&fibre.arena, exc),
        forall|h: usize| #![trigger fibre.arena.objects@[h as int]]
            exc == PhpValue::Object(h) ==> match property_from(fibre.arena.objects@[h as int].properties@, "message"@, 0) {
                Some(PhpValue::Str(m)) => m < fibre.arena.strings@.len(),
                _ => true,
            },
    ensures
        r@ == fibre.uncaught_headline(exc),
{
    let mut out = String::new();
    match exc {
        PhpValue::Object(h) => {
            let o = &fibre.arena.objects[h];
            match &o.class_name {
                Some(n) => append(&mut out, n.as_str()),
                None => if o.class_id < fibre.engine_state.classes.len() {
                    append(&mut out, fibre.engine_state.classes[o.class_id].name.as_str());
                } else {
                    append(&mut out, "Exception");
                },
            }
            match property_exec(&o.properties, "message") {
                Some(PhpValue::Str(m)) => {
                    append(&mut out, ": ");
                    append(&mut out, fibre.arena.strings[m].as_str());
                },
                Some(_) => {
                    append(&mut out, ": (non-string message property)");
                },
                None => {
                    append(&mut out, ": (no message property, properties=");
                    let names = property_names(&o.properties);
                    let d = debug_strings_exec(&names);
                    append(&mut out, d.as_str());
                    append(&mut out, ")");
                },
            }
        },
        PhpValue::Str(h) => {
            append(&mut out, "Uncaught Exception: ");
            append(&mut out, fibre.arena.strings[h].as_str());
        },
        _ => {
            append(&mut out, "Uncaught Exception (not an object: val=");
            let d = debug_value_exec(exc);
            append(&mut out, d.as_str());
            append(&mut out, ", type=");
            append(&mut out, kind_name_exec(exc));
            append(&mut out, ")");
        },
    }
    out
}

#[verifier::spinoff_prover]
#[verifier::rlimit(40)]
fn uncaught_message_exec(fibre: &Fibre, exc: PhpValue) -> (r: String)
    requires
        fibre.frame_functions_ok(),
        value_ok(&fibre.arena, exc),
        forall|h: usize| #![trigger fibre.arena.objects@[h as int]]
            exc == PhpValue::Object(h) ==> match property_from(fibre.arena.objects@[h as int].properties@, "message"@, 0) {
                Some(PhpValue::Str(m)) => m < fibre.arena.strings@.len(),
                _ => true,
            },
    ensures
        r@ == fibre.uncaught_message(exc),
{
    let mut out = uncaught_headline_exec(fibre, exc);
    let fc = fibre.frame_count;
    if fc == 0 {
        return out;
    }
    append(&mut out, "\nStack trace:\n");
    let ghost head = out@;
    let mut i: usize = fc;
    while i > 0
        invariant
            fibre.frame_functions_ok(),
            fc == fibre.frame_count,
            i <= fc,
            fc >= 1,
            out@ == head + fibre.trace_from(fc as int).take(fibre.trace_from(fc as int).len() - fibre.trace_from(i as int).len()),
            fibre.trace_from(i as int).len() <= fibre.trace_from(fc as int).len(),
            fibre.trace_from(fc as int) =~= fibre.trace_from(fc as int).take(fibre.trace_from(fc as int).len() - fibre.trace_from(i as int).len()) + fibre.trace_from(i as int),
        decreases i,
    {
        let fr = fibre.frames[i - 1];
        assert(fibre.frames@[i - 1].function.0 < fibre.engine_state.functions@.len());
        let ghost before = out@;
        let ghost done = fibre.trace_from(fc as int).take(fibre.trace_from(fc as int).len() - fibre.trace_from(i as int).len());
        append(&mut out, "  #");
        append_decimal(&mut out, i - 1);
        append(&mut out, " ");
        append(&mut out, fibre.engine_state.functions[fr.function.0].name.as_str());
        append(&mut out, " (ip=");
        append_decimal(&mut out, fr.ip);
        append(&mut out, ")");
        assert(out@ =~= before + fibre.trace_line(i - 1));
        if i > 1 {
            append(&mut out, "\n");
            proof {
                assert(fibre.trace_from(i as int) == fibre.trace_line(i - 1) + "\n"@ + fibre.trace_from(i - 1));
                assert(fibre.trace_from(fc as int) =~= done + fibre.trace_line(i - 1) + "\n"@ + fibre.trace_from(i - 1));
                assert(fibre.trace_from(fc as int).take(fibre.trace_from(fc as int).len() - fibre.trace_from(i - 1).len())
                    =~= done + fibre.trace_line(i - 1) + "\n"@);
            }
        } else {
            proof {
                assert(fibre.trace_from(i as int) == fibre.trace_line(0));
                assert(fibre.trace_from(0) =~= Seq::<char>::empty());
                assert(fibre.trace_from(fc as int).take(fibre.trace_from(fc as int).len() - fibre.trace_from(0).len())
                    =~= fibre.trace_from(fc as int));
                assert(fibre.trace_from(fc as int) =~= done + fibre.trace_line(0));
            }
        }
        i = i - 1;
    }
    proof {
        assert(fibre.trace_from(0) =~= Seq::<char>::empty());
        assert(fibre.trace_from(fc as int).take(fibre.trace_from(fc as int).len() as int) =~= fibre.trace_from(fc as int));
    }
    out
}

fn catch_exec(fibre: &Fibre, fi: usize, ip: usize, exc: PhpValue) -> (r: Option<usize>)
    requires
        fi < fibre.engine_state.functions@.len(),
        fibre.frames_ok(),
        fibre.frame_functions_ok(),
        fibre.stack_handles_ok(),
        fibre.catches_resolvable(),
        value_ok(&fibre.arena, exc),
    ensures
        match r {
            Some(i) => catch_from(fibre, fibre.engine_state.functions@[fi as int].chunk.exception_handlers@, ip, exc, 0)
                == Some(i as int) && i < fibre.engine_state.functions@[fi as int].chunk.exception_handlers@.len(),
            None => catch_from(fibre, fibre.engine_state.functions@[fi as int].chunk.exception_handlers@, ip, exc, 0) is None,
        },
{
    let hs = &fibre.engine_state.functions[fi].chunk.exception_handlers;
    let mut j: usize = 0;
    while j < hs.len()
        invariant
            fi < fibre.engine_state.functions@.len(),
            hs == &fibre.engine_state.functions@[fi as int].chunk.exception_handlers,
            fibre.frames_ok(),
            fibre.frame_functions_ok(),
            fibre.stack_handles_ok(),
            fibre.catches_resolvable(),
            value_ok(&fibre.arena, exc),
            j <= hs@.len(),
            catch_from(fibre, hs@, ip, exc, 0) == catch_from(fibre, hs@, ip, exc, j as int),
        decreases hs@.len() - j,
    {
        let h = &hs[j];
        if h.start_ip <= ip && ip <= h.end_ip {
            assert(h.catch_class@ == fibre.engine_state.functions@[fi as int].chunk.exception_handlers@[j as int].catch_class@);
            if h.catch_class.as_str().is_empty() || VM::instance_of_loaded(fibre, exc, h.catch_class.as_str()) {
                return Some(j);
            }
        }
        j = j + 1;
    }
    None
}

fn finally_exec(fs: &Vec<FinallyHandler>, ip: usize) -> (r: Option<usize>)
    ensures
        match r {
            Some(i) => finally_from(fs@, ip, 0) == Some(i as int) && i < fs@.len(),
            None => finally_from(fs@, ip, 0) is None,
        },
{
    let mut j: usize = 0;
    while j < fs.len()
        invariant
            j <= fs@.len(),
            finally_from(fs@, ip, 0) == finally_from(fs@, ip, j as int),
        decreases fs@.len() - j,
    {
        if fs[j].start_ip <= ip && ip <= fs[j].end_ip {
            return Some(j);
        }
        j = j + 1;
    }
    None
}

fn frame_target_exec(fibre: &Fibre, cf: usize, exc: PhpValue) -> (r: Option<ResumePoint>)
    requires
        1 <= cf <= fibre.frame_count,
        fibre.frames_ok(),
        fibre.frame_functions_ok(),
        fibre.stack_handles_ok(),
        fibre.catches_resolvable(),
        value_ok(&fibre.arena, exc),
    ensures
        r == fibre.frame_target(cf as int, exc),
{
    let fr = fibre.frames[cf - 1];
    assert(fibre.frames@[cf - 1].function.0 < fibre.engine_state.functions@.len());
    let ch = &fibre.engine_state.functions[fr.function.0].chunk;
    let hs = &ch.exception_handlers;
    let fs = &ch.finally_handlers;
    match catch_exec(fibre, fr.function.0, fr.ip, exc) {
        Some(ci) => match finally_exec(fs, fr.ip) {
            Some(fj) => if hs[ci].start_ip >= fs[fj].start_ip && hs[ci].end_ip <= fs[fj].end_ip {
                Some((hs[ci].catch_ip, false, hs[ci].stack_depth))
            } else {
                Some((fs[fj].finally_ip, true, hs[ci].stack_depth))
            },
            None => Some((hs[ci].catch_ip, false, hs[ci].stack_depth)),
        },
        None => match finally_exec(fs, fr.ip) {
            Some(fj) => Some((fs[fj].finally_ip, true, fs[fj].stack_depth)),
            None => None,
        },
    }
}

/// Drops the entries made by frames at `n` or above.
fn retain_below<T>(v: &mut Vec<(usize, T)>, n: usize)
    ensures
        final(v)@ == keep_below(old(v)@, n),
{
    let ghost orig = v@;
    let n0 = v.len();
    let mut i: usize = 0;
    let mut j: usize = 0;
    proof {
        assert(orig.take(0) =~= Seq::<(usize, T)>::empty());
        assert(orig.skip(0) =~= orig);
        assert(keep_below(orig.take(0), n) =~= Seq::<(usize, T)>::empty());
    }
    while i < v.len()
        invariant
            orig.len() == n0,
            j <= orig.len(),
            i == keep_below(orig.take(j as int), n).len(),
            v@ == keep_below(orig.take(j as int), n) + orig.skip(j as int),
        decreases v@.len() - i,
    {
        assert(v@.len() == i + (orig.len() - j));
        assert(j < orig.len());
        assert(v@[i as int] == orig[j as int]);
        assert(orig.take(j as int + 1).drop_last() =~= orig.take(j as int));
        assert(orig.take(j as int + 1).last() == orig[j as int]);
        if v[i].0 < n {
            i = i + 1;
            proof {
                assert(v@ =~= keep_below(orig.take(j as int + 1), n) + orig.skip(j as int + 1));
            }
        } else {
            let ghost before = v@;
            v.remove(i);
            proof {
                assert(v@ =~= keep_below(orig.take(j as int + 1), n) + orig.skip(j as int + 1));
            }
        }
        j = j + 1;
    }
    proof {
        assert(v@.len() == keep_below(orig.take(j as int), n).len() + orig.skip(j as int).len());
        assert(j == orig.len());
        assert(orig.take(orig.len() as int) =~= orig);
        assert(v@ =~= keep_below(orig, n));
    }
}

impl VM {
    /// Unwinds the stack for a thrown exception. From the top frame down,
    /// the first frame with a `catch` or `finally` region that takes it
    /// becomes the top frame and resumes there (see
    /// [`Fibre::frame_target`]): at a `catch` the exception is pushed for
    /// the handler; at a `finally` it is kept to be rethrown when the block
    /// ends. Run-time variables of the frames left are dropped. When no
    /// frame takes it, nothing changes and the report of an uncaught
    /// exception comes back.
    pub fn handle_throw(fibre: &mut Fibre, exception_val: PhpValue) -> (r: Option<ExecutionResult>)
        requires
            old(fibre).can_unwind(exception_val),
            forall|h: usize| #![trigger old(fibre).arena.objects@[h as int]]
                exception_val == PhpValue::Object(h) ==> match property_from(
                    old(fibre).arena.objects@[h as int].properties@,
                    "message"@,
                    0,
                ) {
                    Some(PhpValue::Str(m)) => m < old(fibre).arena.strings@.len(),
                    _ => true,
                },
        ensures
            old(fibre).unwound(&*final(fibre), exception_val, r),
    {
        let fc = fibre.frame_count;
        let mut cf: usize = fc;
        while cf > 0
            invariant
                *fibre == *old(fibre),
                fc == fibre.frame_count,
                cf <= fc,
                fibre.can_unwind(exception_val),
                fibre.handler_frame(exception_val, fc as int) == fibre.handler_frame(exception_val, cf as int),
            decreases cf,
        {
            match frame_target_exec(fibre, cf, exception_val) {
                Some((tip, fin, depth)) => {
                    let fr = fibre.frames[cf - 1];
                    assert(fibre.frames@[cf - 1].function.0 < fibre.engine_state.functions@.len());
                    let nl = fibre.engine_state.functions[fr.function.0].num_locals;
                    let locals = if nl > fr.arity {
                        nl
                    } else {
                        fr.arity
                    };
                    fibre.stack_top = fr.stack_window + 1 + locals + depth;
                    if fin {
                        fibre.unwind_action = Some(UnwindAction::Throw(exception_val));
                        fibre.frames.set(cf - 1, CallFrame { ip: tip, ..fr });
                    } else {
                        Self::push(fibre, exception_val);
                        fibre.frames.set(cf - 1, CallFrame { ip: tip, ..fr });
                        fibre.unwind_action = None;
                    }
                    fibre.frame_count = cf;
                    retain_below(&mut fibre.dynamic_locals, cf);
                    return None;
                },
                None => {},
            }
            cf = cf - 1;
        }
        let msg = uncaught_message_exec(fibre, exception_val);
        Some(ExecutionResult::UncaughtException(msg))
    }
}

proof fn lemma_active_frame_same(f1: &Fibre, f2: &Fibre, i: int)
    requires
        f1.frames == f2.frames,
        f1.engine_state == f2.engine_state,
    ensures
        f1.active_frame_from(i) == f2.active_frame_from(i),
    decreases i,
{
    if i > 0 {
        lemma_active_frame_same(f1, f2, i - 1);
    }
}

/// The classes a native error message may name before `": "`.
pub open spec fn native_error_classes() -> Seq<Seq<char>> {
    seq![
        "PDOException"@,
        "InvalidArgumentException"@,
        "RuntimeException"@,
        "LogicException"@,
        "TypeError"@,
        "Error"@,
        "Exception"@,
        "BadMethodCallException"@,
        "OutOfBoundsException"@,
        "UnexpectedValueException"@,
        "ReflectionException"@,
        "ValueError"@,
        "DivisionByZeroError"@,
    ]
}

/// The first index at `i` or later where `": "` begins.
pub open spec fn separator_from(s: Seq<char>, i: int) -> Option<int>
    decreases s.len() - i,
{
    if i < 0 || i + 1 >= s.len() {
        None
    } else if s[i] == ':' && s[i + 1] == ' ' {
        Some(i)
    } else {
        separator_from(s, i + 1)
    }
}

/// The class and message of a native error: `Class: message` when the
/// text before the first `": "` names one of the known classes, else
/// `Exception` with the whole text.
pub open spec fn native_error_parts(err: Seq<char>) -> (Seq<char>, Seq<char>) {
    match separator_from(err, 0) {
        Some(p) => if native_error_classes().contains(err.take(p)) {
            (err.take(p), err.skip(p + 2))
        } else {
            ("Exception"@, err)
        },
        None => ("Exception"@, err),
    }
}

/// The properties of a native error object whose message and file name
/// are the strings `msg` and `file`.
pub open spec fn native_error_properties(msg: usize, file: usize) -> Seq<(Seq<char>, PhpValue)> {
    seq![
        ("message"@, PhpValue::Str(msg)),
        ("code"@, PhpValue::Int(0)),
        ("file"@, PhpValue::Str(file)),
        ("line"@, PhpValue::Int(0)),
        ("previous"@, PhpValue::Null),
    ]
}

impl Fibre {
    /// The file a native error reports: the name of the current function,
    /// else `unknown`.
    pub open spec fn native_error_file(&self) -> Seq<char> {
        if self.frame_count > 0 {
            self.engine_state.functions@[self.frames@[self.frame_count - 1].function.0 as int].name@
        } else {
            "unknown"@
        }
    }
}

fn separator_exec(cs: &Vec<char>) -> (r: Option<usize>)
    ensures
        match r {
            Some(p) => separator_from(cs@, 0) == Some(p as int) && p + 2 <= cs@.len(),
            None => separator_from(cs@, 0) is None,
        },
{
    if cs.len() < 2 {
        return None;
    }
    let last = cs.len() - 1;
    let mut i: usize = 0;
    while i < last
        invariant
            last + 1 == cs@.len(),
            i <= last,
            separator_from(cs@, 0) == separator_from(cs@, i as int),
        decreases last - i,
    {
        if cs[i] == ':' && cs[i + 1] == ' ' {
            return Some(i);
        }
        i = i + 1;
    }
    None
}

fn native_error_parts_exec(err: &str) -> (r: (String, String))
    ensures
        (r.0@, r.1@) == native_error_parts(err@),
{
    let cs = chars_of(err);
    let known: Vec<&str> = vec![
        "PDOException",
        "InvalidArgumentException",
        "RuntimeException",
        "LogicException",
        "TypeError",
        "Error",
        "Exception",
        "BadMethodCallException",
        "OutOfBoundsException",
        "UnexpectedValueException",
        "ReflectionException",
        "ValueError",
        "DivisionByZeroError",
    ];
    assert(known@.map_values(|s: &str| s@) =~= native_error_classes());
    match separator_exec(&cs) {
        Some(p) => {
            let prefix = string_of(&cs, 0, p);
            let cs_len = cs.len();
            let mut k: usize = 0;
            while k < known.len()
                invariant
                    k <= known@.len(),
                    cs@ == err@,
                    cs@.len() == cs_len,
                    separator_from(cs@, 0) == Some(p as int),
                    prefix@ == cs@.subrange(0, p as int),
                    p + 2 <= cs@.len(),
                    known@.map_values(|s: &str| s@) == native_error_classes(),
                    forall|j: int| 0 <= j < k ==> native_error_classes()[j] != prefix@,
                decreases known@.len() - k,
            {
                if str_equal(prefix.as_str(), known[k]) {
                    assert(native_error_classes()[k as int] == prefix@);
                    assert(prefix@ =~= err@.take(p as int));
                    assert(native_error_classes().contains(err@.take(p as int)));
                    let msg = string_of(&cs, p + 2, cs.len());
                    assert(msg@ =~= err@.skip(p + 2));
                    return (prefix, msg);
                }
                k = k + 1;
            }
            assert(prefix@ =~= err@.take(p as int));
            assert(!native_error_classes().contains(err@.take(p as int)));
            ("Exception".to_owned(), err.to_owned())
        },
        None => ("Exception".to_owned(), err.to_owned()),
    }
}

impl Fibre {
    /// `mid` is this fibre once the exception object for native error
    /// `err` is made (see [`native_error_parts`]): the message and the
    /// current function's name added as the last two strings, and an
    /// object added last, of the class the error names (by the class
    /// index, else class 0), carrying that name, with the message, code
    /// 0, the file, line 0 and no previous exception as its properties;
    /// nothing else changed.
    pub open spec fn native_error_made(&self, err: Seq<char>, mid: Fibre) -> bool {
        let (cls, msg) = native_error_parts(err);
        let s0 = self.arena.strings@.len();
        let h = self.arena.objects@.len();
        let a = mid.arena;
        let o = a.objects@[h as int];
        &&& mid == (Fibre { arena: a, ..*self })
        &&& a.strings@.len() == s0 + 2
        &&& a.strings@.take(s0 as int) == self.arena.strings@
        &&& a.strings@[s0 as int]@ == msg
        &&& a.strings@[s0 as int + 1]@ == self.native_error_file()
        &&& a.objects@.len() == h + 1
        &&& a.objects@.take(h as int) == self.arena.objects@
        &&& o.class_id == match index_entries(self.engine_state.class_map).get(normalized(cls)) {
            Some(id) => id,
            None => 0,
        }
        &&& o.class_name matches Some(n) && n@ == cls
        &&& o.properties@.map_values(|p: (String, PhpValue)| (p.0@, p.1)) == native_error_properties(s0 as usize, (s0 + 1) as usize)
        &&& !o.destructed
        &&& a.arrays == self.arena.arrays
        &&& a.closures == self.arena.closures
        &&& a.interned == self.arena.interned
    }
}

impl VM {
    /// Throws a native error as a PHP exception: `Class: message` (see
    /// [`native_error_parts`]) becomes an object of that class, with its
    /// message, code 0, the current function as its file, line 0 and no
    /// previous exception, and the stack unwinds for it (see
    /// [`Fibre::unwound`]).
    pub fn create_and_throw_native_error(fibre: &mut Fibre, err_str: &str) -> (r: Option<ExecutionResult>)
        requires
            old(fibre).frames_ok(),
            old(fibre).frame_functions_ok(),
            old(fibre).stack_handles_ok(),
            old(fibre).catches_resolvable(),
            old(fibre).stack@.len() <= usize::MAX / 4,
            forall|mid: Fibre| #[trigger]
                old(fibre).native_error_made(err_str@, mid) ==> mid.resume_fits(
                    PhpValue::Object(old(fibre).arena.objects@.len() as usize),
                ),
        ensures
            ({
                let mid = Fibre { arena: final(fibre).arena, ..*old(fibre) };
                &&& old(fibre).native_error_made(err_str@, mid)
                &&& mid.unwound(&*final(fibre), PhpValue::Object(old(fibre).arena.objects@.len() as usize), r)
            }),
    {
        let (cls, msg) = native_error_parts_exec(err_str);
        let class_id = match Self::find_class_id(fibre, cls.as_str()) {
            Some(id) => id,
            None => 0,
        };
        let file = if fibre.frame_count > 0 {
            let fr = fibre.frames[fibre.frame_count - 1];
            assert(fibre.frames@[fibre.frame_count - 1].function.0 < fibre.engine_state.functions@.len());
            fibre.engine_state.functions[fr.function.0].name.clone()
        } else {
            "unknown".to_owned()
        };
        let s0 = fibre.arena.strings.len();
        fibre.arena.strings.push(msg);
        let s1 = fibre.arena.strings.len() - 1;
        fibre.arena.strings.push(file);
        let props: Vec<(String, PhpValue)> = vec![
            ("message".to_owned(), PhpValue::Str(s0)),
            ("code".to_owned(), PhpValue::Int(0)),
            ("file".to_owned(), PhpValue::Str(s1 + 1)),
            ("line".to_owned(), PhpValue::Int(0)),
            ("previous".to_owned(), PhpValue::Null),
        ];
        assert(props@.map_values(|p: (String, PhpValue)| (p.0@, p.1)) =~= native_error_properties(s0, (s0 + 1) as usize));
        let obj = PhpObject { class_id, class_name: Some(cls), properties: props, destructed: false };
        let h = fibre.arena.objects.len();
        fibre.arena.objects.push(obj);
        let exc = PhpValue::Object(h);
        proof {
            assert(fibre.arena.strings@.take(s0 as int) =~= old(fibre).arena.strings@);
            assert(fibre.arena.objects@.take(h as int) =~= old(fibre).arena.objects@);
            assert(property_from(fibre.arena.objects@[h as int].properties@, "message"@, 0) == Some(PhpValue::Str(s0)));
            assert forall|i: int| 0 <= i < fibre.stack@.len() implies value_ok(&fibre.arena, #[trigger] fibre.stack@[i]) by {
                assert(value_ok(&old(fibre).arena, old(fibre).stack@[i]));
            }
            assert(fibre.frames_ok()) by {
                assert forall|i: int|
                    0 <= i < fibre.frame_count && #[trigger] fibre.frames@[i].stack_window < fibre.stack_top
                        implies crate::fibre::handle_ok(&fibre.arena, fibre.stack@[fibre.frames@[i].stack_window as int]) by {
                    assert(crate::fibre::handle_ok(&old(fibre).arena, old(fibre).stack@[old(fibre).frames@[i].stack_window as int]));
                }
            }
            assert(fibre.catches_resolvable()) by {
                assert forall|i: int, j: int|
                    0 <= i < fibre.engine_state.functions@.len() && 0 <= j
                        < fibre.engine_state.functions@[i].chunk.exception_handlers@.len() implies {
                        let c = #[trigger] fibre.engine_state.functions@[i].chunk.exception_handlers@[j].catch_class@;
                        is_relative_keyword(c) ==> fibre.resolvable(c)
                    } by {
                    let c = fibre.engine_state.functions@[i].chunk.exception_handlers@[j].catch_class@;
                    if is_relative_keyword(c) {
                        assert(old(fibre).engine_state.functions@[i].chunk.exception_handlers@[j].catch_class@ == c);
                        assert(old(fibre).resolvable(c));
                        lemma_active_frame_same(&*old(fibre), &*fibre, fibre.frame_count as int);
                    }
                }
            }
            assert(*fibre == (Fibre { arena: fibre.arena, ..*old(fibre) }));
            assert(old(fibre).native_error_made(err_str@, *fibre));
        }
        Self::handle_throw(fibre, exc)
    }
}

/// One decision of throwing an exception with autoloading.
#[derive(Debug)]
pub enum ThrowStep {
    /// Load this class (a name on the way from the exception's class),
    /// then throw again with it among the names tried.
    Load(String),
    /// The stack was unwound (see [`Fibre::unwound`]), with this result.
    Unwound(Option<ExecutionResult>),
}

impl VM {
    /// Throws `exception_val` with autoloading, the names in `tried` having
    /// been loaded already: while some class on the way from the
    /// exception's class (its parents and interfaces, and theirs) is
    /// neither loaded nor tried, that class is to be loaded first and
    /// nothing changes; once none is, the stack unwinds (see
    /// [`VM::handle_throw`]), each `catch` class then tested over every
    /// class the exception's class can reach.
    pub fn throw_with_autoload(fibre: &mut Fibre, exception_val: PhpValue, tried: &[String]) -> (r: ThrowStep)
        requires
            old(fibre).throw_ok(exception_val),
        ensures
            old(fibre).throw_step_is(exception_val, names_of(tried@), r, *final(fibre)),
    {
        if let PhpValue::Object(h) = exception_val {
            let e = &fibre.engine_state;
            let o = &fibre.arena.objects[h];
            let initial: Option<String> = match &o.class_name {
                Some(cn) => Some(cn.clone()),
                None => if o.class_id < e.classes.len() {
                    Some(e.classes[o.class_id].name.clone())
                } else {
                    None
                },
            };
            if let Some(c) = initial {
                if let Some(n) = unloaded_from(e, c.as_str(), tried) {
                    return ThrowStep::Load(n);
                }
            }
        }
        ThrowStep::Unwound(Self::handle_throw(fibre, exception_val))
    }
}

impl Fibre {
    /// What throwing `exception_val` reads: a stack to unwind and, for an
    /// object, a message string in the heap.
    pub open spec fn throw_ok(&self, exception_val: PhpValue) -> bool {
        &&& self.can_unwind(exception_val)
        &&& forall|h: usize| #![trigger self.arena.objects@[h as int]]
            exception_val == PhpValue::Object(h) ==> match property_from(
                self.arena.objects@[h as int].properties@,
                "message"@,
                0,
            ) {
                Some(PhpValue::Str(m)) => m < self.arena.strings@.len(),
                _ => true,
            }
    }

    /// A decision of throwing `exception_val` with autoloading from this
    /// fibre, the names in `tried` loaded already, which leaves `after`:
    /// while some class on the way from the exception's class (its parents
    /// and interfaces, and theirs) is neither loaded nor tried, that class
    /// is to be loaded first and nothing changes; once none is, the stack
    /// unwinds (see [`Fibre::unwound`]).
    pub open spec fn throw_step_is(&self, exception_val: PhpValue, tried: Seq<Seq<char>>, r: ThrowStep, after: Fibre) -> bool {
        match exception_val {
            PhpValue::Object(h) => match self.walk_start(h) {
                Some(c) => match r {
                    ThrowStep::Load(n) => {
                        &&& crate::instance::unloaded_on_the_way(&self.engine_state, c, n@, tried)
                        &&& after == *self
                    },
                    ThrowStep::Unwound(res) => {
                        &&& forall|n: Seq<char>| #[trigger] reaches(&self.engine_state, c, n) && class_of(
                            &self.engine_state,
                            n,
                        ) is None ==> tried.contains(n)
                        &&& self.unwound(&after, exception_val, res)
                    },
                },
                None => r matches ThrowStep::Unwound(res) && self.unwound(&after, exception_val, res),
            },
            _ => r matches ThrowStep::Unwound(res) && self.unwound(&after, exception_val, res),
        }
    }

    /// Throwing `exception_val` from this fibre with autoloading, the names
    /// in `tried` loaded already and up to `loads` more loads to make
    /// through `load`, ends in `after` with `r`: an unwinding decision (see
    /// [`Fibre::throw_step_is`]) gives the result; a class to load is
    /// handed to `load` and the exception thrown again on the fibre it gives
    /// back, with the name among those tried; once no load is left, the
    /// stack unwinds over the classes loaded then.
    pub open spec fn thrown<F: Fn(Fibre, String) -> Fibre>(
        &self,
        exception_val: PhpValue,
        tried: Seq<Seq<char>>,
        loads: nat,
        load: F,
        r: Option<ExecutionResult>,
        after: Fibre,
    ) -> bool
        decreases loads,
    {
        exists|step: ThrowStep, mid: Fibre|
            #[trigger] self.throw_step_is(exception_val, tried, step, mid) && match step {
                ThrowStep::Unwound(res) => r == res && after == mid,
                ThrowStep::Load(n) => if loads == 0 {
                    self.unwound(&after, exception_val, r)
                } else {
                    exists|s: String, f2: Fibre|
                        #[trigger] call_ensures(load, (*self, s), f2) && s@ == n@ && f2.thrown(
                            exception_val,
                            tried.push(n@),
                            (loads - 1) as nat,
                            load,
                            r,
                            after,
                        )
                },
            }
    }
}

impl VM {
    /// Throws `exception_val`, loading the classes on the way from its
    /// class through `load` (which runs the fibre's autoloaders), at most
    /// `max_loads` of them, so that each `catch` class is tested over
    /// every class the exception's class reaches (see [`Fibre::thrown`]).
    pub fn throw_exception<F: Fn(Fibre, String) -> Fibre>(
        fibre: Fibre,
        exception_val: PhpValue,
        load: F,
        max_loads: usize,
    ) -> (r: (Fibre, Option<ExecutionResult>))
        requires
            fibre.throw_ok(exception_val),
            forall|f: Fibre, s: String| #[trigger] call_requires(load, (f, s)),
            forall|f: Fibre, s: String, f2: Fibre|
                #[trigger] call_ensures(load, (f, s), f2) && f.throw_ok(exception_val) ==> f2.throw_ok(exception_val),
        ensures
            fibre.thrown(exception_val, seq![], max_loads as nat, load, r.1, r.0),
    {
        let ghost start = fibre;
        let mut fb = fibre;
        let mut tried: Vec<String> = Vec::new();
        let mut loads = max_loads;
        proof {
            assert(names_of(tried@) =~= seq![]);
        }
        loop
            invariant
                start == fibre,
                fb.throw_ok(exception_val),
                forall|f: Fibre, s: String| #[trigger] call_requires(load, (f, s)),
                forall|f: Fibre, s: String, f2: Fibre|
                    #[trigger] call_ensures(load, (f, s), f2) && f.throw_ok(exception_val) ==> f2.throw_ok(exception_val),
                forall|r: Option<ExecutionResult>, after: Fibre|
                    #[trigger] fb.thrown(exception_val, names_of(tried@), loads as nat, load, r, after)
                        ==> start.thrown(exception_val, seq![], max_loads as nat, load, r, after),
            decreases loads,
        {
            let ghost cur = fb;
            let step = Self::throw_with_autoload(&mut fb, exception_val, tried.as_slice());
            let ghost gstep = step;
            let ghost mid = fb;
            match step {
                ThrowStep::Unwound(res) => {
                    assert(cur.throw_step_is(exception_val, names_of(tried@), gstep, mid));
                    assert(cur.thrown(exception_val, names_of(tried@), loads as nat, load, res, fb));
                    return (fb, res);
                },
                ThrowStep::Load(n) => {
                    if loads == 0 {
                        let res = Self::handle_throw(&mut fb, exception_val);
                        assert(cur.throw_step_is(exception_val, names_of(tried@), gstep, mid));
                        assert(cur.thrown(exception_val, names_of(tried@), loads as nat, load, res, fb));
                        return (fb, res);
                    }
                    let ghost gn = n;
                    let ghost old_tried = names_of(tried@);
                    let ghost old_loads = loads;
                    let f2 = load(fb, n.clone());
                    fb = f2;
                    tried.push(n);
                    loads = loads - 1;
                    proof {
                        assert(names_of(tried@) =~= old_tried.push(gn@));
                        assert forall|r: Option<ExecutionResult>, after: Fibre|
                            #[trigger] fb.thrown(exception_val, names_of(tried@), loads as nat, load, r, after)
                                implies cur.thrown(exception_val, old_tried, old_loads as nat, load, r, after) by {
                            assert(cur.throw_step_is(exception_val, old_tried, gstep, mid));
                        }
                    }
                },
            }
        }
    }
}

} // verus!
