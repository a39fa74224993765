use vstd::prelude::*;
use crate::classes::{EngineState, FunctionPtr, PhpClass};
use crate::access::holds_method;
use crate::external::index_entries;
use crate::names::normalized;
use crate::value::{Arena, PhpValue};
use crate::vm::VM;

verus! {

/// One activation on a fibre's call stack.
#[derive(Clone, Copy, PartialEq, Eq, Structural, Debug)]
pub struct CallFrame {
    pub function: FunctionPtr,
    pub ip: usize,
    pub stack_window: usize,
    pub called_class_id: usize,
    pub arity: usize,
}

/// How a run of a fibre ended.
#[derive(Debug)]
pub enum ExecutionResult {
    Finished,
    Yielded(YieldReason),
    Preempted,
    Error(String),
    UncaughtException(String),
}

/// Why a fibre gave up the processor.
#[derive(Debug)]
pub enum YieldReason {
    Network,
    Disk,
    AsyncInclude(String),
    Database(u64),
    GeneratorYield,
    OutputFlush,
    WaitForHttpRequest,
}

/// The stack after it grows: to twice its length, and at least 128 slots,
/// the new slots `null`.
pub open spec fn grown_stack(s: Seq<PhpValue>) -> Seq<PhpValue> {
    let n: int = if s.len() > 64 { 2 * s.len() as int } else { 128 };
    s + Seq::new((n - s.len()) as nat, |i: int| PhpValue::Null)
}

/// The stack after pushing `v` at `top`: grown first when `top` is past
/// its end.
pub open spec fn pushed_stack(s: Seq<PhpValue>, top: int, v: PhpValue) -> Seq<PhpValue> {
    if top < s.len() {
        s.update(top, v)
    } else {
        grown_stack(s).update(top, v)
    }
}

/// What happens when the `finally` block being run ends.
#[derive(Clone, Copy, Debug)]
pub enum UnwindAction {
    /// Rethrow the exception that entered the block.
    Throw(PhpValue),
    /// Return this value once the block ends.
    Return(PhpValue),
}

/// A lightweight thread of PHP execution: its value stack, its call frames
/// and the heap its values point into. `dynamic_locals` holds the variables
/// created at run time, by the index of the frame that created them;
/// `autoloaders` the fibre's copy of the registered class loaders, and
/// `autoload_state` for each class name being loaded the index of the next
/// loader to try; `static_properties` the current values of static
/// properties, keyed by normalized class name and property name;
/// `stop_frame_count` the frame count at which a synchronous run stops.
pub struct Fibre {
    pub engine_state: EngineState,
    pub arena: Arena,
    pub stack: Vec<PhpValue>,
    pub stack_top: usize,
    pub frames: Vec<CallFrame>,
    pub frame_count: usize,
    pub autoload_frame_depths: Vec<usize>,
    pub unwind_action: Option<UnwindAction>,
    pub dynamic_locals: Vec<(usize, Vec<(String, PhpValue)>)>,
    pub autoloaders: Vec<PhpValue>,
    pub autoload_state: Vec<(String, usize)>,
    pub static_properties: Vec<((String, String), PhpValue)>,
    pub stop_frame_count: Option<usize>,
}

impl Fibre {
    /// The values in use on the stack.
    pub open spec fn live(&self) -> Seq<PhpValue> {
        self.stack@.take(self.stack_top as int)
    }

    /// The stack top lies within the stack, and the stack can still double.
    pub open spec fn stack_ok(&self) -> bool {
        &&& self.stack_top <= self.stack@.len()
        &&& self.stack@.len() <= usize::MAX / 4
    }
}

impl Fibre {
    /// The current frame's function exists and its next byte is in the code.
    pub open spec fn can_read(&self, n: int) -> bool {
        &&& 1 <= self.frame_count <= self.frames@.len()
        &&& self.frames@[self.frame_count - 1].function.0 < self.engine_state.functions@.len()
        &&& self.frames@[self.frame_count - 1].ip + n <= self.current_code().len()
    }

    /// The bytecode of the current frame's function.
    pub open spec fn current_code(&self) -> Seq<u8> {
        self.engine_state.functions@[self.frames@[self.frame_count - 1].function.0 as int].chunk.code@
    }

    /// The instruction pointer of the current frame.
    pub open spec fn current_ip(&self) -> int {
        self.frames@[self.frame_count - 1].ip as int
    }

    /// The fibre with the current frame's instruction pointer moved by `n`.
    pub open spec fn advanced(&self, n: int) -> Seq<CallFrame> {
        let f = self.frames@[self.frame_count - 1];
        self.frames@.update(self.frame_count - 1, CallFrame { ip: (f.ip + n) as usize, ..f })
    }
}

impl VM {
    /// Reads the next byte of the current frame's code and advances past it.
    pub fn read_byte(fibre: &mut Fibre) -> (r: u8)
        requires
            old(fibre).can_read(1),
        ensures
            r == old(fibre).current_code()[old(fibre).current_ip()],
            final(fibre).frames@ == old(fibre).advanced(1),
            final(fibre).current_ip() == old(fibre).current_ip() + 1,
            final(fibre).frame_count == old(fibre).frame_count,
            final(fibre).stack == old(fibre).stack,
            final(fibre).stack_top == old(fibre).stack_top,
            final(fibre).engine_state == old(fibre).engine_state,
            final(fibre).arena == old(fibre).arena,
            final(fibre).autoload_frame_depths == old(fibre).autoload_frame_depths,
    {
        let fi = fibre.frame_count - 1;
        let frame = fibre.frames[fi];
        let code = &fibre.engine_state.functions[frame.function.0].chunk.code;
        let len = code.len();
        let byte = code[frame.ip];
        assert(frame.ip < len);
        fibre.frames.set(fi, CallFrame { ip: frame.ip + 1, ..frame });
        byte
    }

    /// Reads a big-endian 16-bit operand and advances past it.
    pub fn read_short(fibre: &mut Fibre) -> (r: u16)
        requires
            old(fibre).can_read(2),
        ensures
            r == old(fibre).current_code()[old(fibre).current_ip()] as u16 * 256
                + old(fibre).current_code()[old(fibre).current_ip() + 1] as u16,
            final(fibre).frames@ == old(fibre).advanced(2),
            final(fibre).frame_count == old(fibre).frame_count,
            final(fibre).stack == old(fibre).stack,
            final(fibre).stack_top == old(fibre).stack_top,
            final(fibre).engine_state == old(fibre).engine_state,
            final(fibre).arena == old(fibre).arena,
            final(fibre).autoload_frame_depths == old(fibre).autoload_frame_depths,
    {
        let ghost code = old(fibre).current_code();
        let ghost ip = old(fibre).current_ip();
        let hi_b = Self::read_byte(fibre);
        assert(fibre.current_code() == code);
        assert(fibre.current_ip() == ip + 1);
        let lo_b = Self::read_byte(fibre);
        let hi = hi_b as u16;
        let lo = lo_b as u16;
        proof {
            assert(fibre.frames@ =~= old(fibre).advanced(2));
        }
        assert((hi << 8u16) | lo == hi * 256 + lo) by (bit_vector)
            requires hi < 256, lo < 256;
        (hi << 8u16) | lo
    }

    /// Pops the current frame, resets the stack to its window and pushes the
    /// return value, unless the frame ran an autoloader. `Finished` when the
    /// last frame returned.
    pub fn handle_return(fibre: &mut Fibre, ret_val: PhpValue) -> (r: Option<ExecutionResult>)
        requires
            1 <= old(fibre).frame_count <= old(fibre).frames@.len(),
            old(fibre).frames@[old(fibre).frame_count - 1].stack_window <= old(fibre).stack@.len(),
            old(fibre).stack@.len() <= usize::MAX / 4,
        ensures
            ({
                let fc = old(fibre).frame_count;
                let window = old(fibre).frames@[fc - 1].stack_window;
                let depths = old(fibre).autoload_frame_depths@;
                let autoload = depths.len() > 0 && depths.last() == fc - 1;
                &&& final(fibre).frame_count == fc - 1
                &&& final(fibre).autoload_frame_depths@ == if autoload { depths.drop_last() } else { depths }
                &&& if autoload {
                    &&& final(fibre).stack_top == window
                    &&& final(fibre).live() == old(fibre).stack@.take(window as int)
                } else {
                    &&& final(fibre).stack_top == window + 1
                    &&& final(fibre).live() == old(fibre).stack@.take(window as int).push(ret_val)
                }
                &&& (r is Some) == (fc == 1)
                &&& r matches Some(res) ==> res is Finished
            }),
            final(fibre).frames == old(fibre).frames,
            final(fibre).engine_state == old(fibre).engine_state,
            final(fibre).arena == old(fibre).arena,
            final(fibre).unwind_action == old(fibre).unwind_action,
            final(fibre).dynamic_locals == old(fibre).dynamic_locals,
            final(fibre).autoloaders == old(fibre).autoloaders,
            final(fibre).autoload_state == old(fibre).autoload_state,
            final(fibre).static_properties == old(fibre).static_properties,
            final(fibre).stop_frame_count == old(fibre).stop_frame_count,
    {
        let fc = fibre.frame_count;
        let old_stack_top = fibre.frames[fc - 1].stack_window;
        let mut is_autoload = false;
        let n = fibre.autoload_frame_depths.len();
        if n > 0 {
            let depth = fibre.autoload_frame_depths[n - 1];
            if depth == fc - 1 {
                is_autoload = true;
                fibre.autoload_frame_depths.pop();
            }
        }
        fibre.frame_count = fc - 1;
        fibre.stack_top = old_stack_top;
        if !is_autoload {
            Self::push(fibre, ret_val);
        }
        if fibre.frame_count == 0 {
            return Some(ExecutionResult::Finished);
        }
        None
    }

    /// The id the class index holds for a class name, after normalizing it.
    pub fn find_class_id(fibre: &Fibre, class_name: &str) -> (r: Option<usize>)
        ensures
            r == index_entries(fibre.engine_state.class_map).get(normalized(class_name@)),
    {
        fibre.engine_state.find_class_id(class_name)
    }

    /// The id the function index holds for a function name, after
    /// normalizing it.
    pub fn find_func_id(fibre: &Fibre, func_name: &str) -> (r: Option<usize>)
        ensures
            r == index_entries(fibre.engine_state.func_map).get(normalized(func_name@)),
    {
        fibre.engine_state.find_func_id(func_name)
    }

    /// Pushes a value, growing the stack when it is full.
    pub fn push(fibre: &mut Fibre, value: PhpValue)
        requires
            old(fibre).stack_ok(),
        ensures
            final(fibre).stack_top == old(fibre).stack_top + 1,
            final(fibre).live() == old(fibre).live().push(value),
            final(fibre).stack@ == pushed_stack(old(fibre).stack@, old(fibre).stack_top as int, value),
            final(fibre).stack@.len() >= old(fibre).stack@.len(),
            final(fibre).stack@.len() <= 128 || final(fibre).stack@.len() <= 2 * old(fibre).stack@.len(),
            final(fibre).stack_top <= final(fibre).stack@.len(),
            final(fibre).frames == old(fibre).frames,
            final(fibre).frame_count == old(fibre).frame_count,
            final(fibre).autoload_frame_depths == old(fibre).autoload_frame_depths,
            final(fibre).engine_state == old(fibre).engine_state,
            final(fibre).arena == old(fibre).arena,
            final(fibre).unwind_action == old(fibre).unwind_action,
            final(fibre).dynamic_locals == old(fibre).dynamic_locals,
            final(fibre).autoloaders == old(fibre).autoloaders,
            final(fibre).autoload_state == old(fibre).autoload_state,
            final(fibre).static_properties == old(fibre).static_properties,
            final(fibre).stop_frame_count == old(fibre).stop_frame_count,
    {
        if fibre.stack_top >= fibre.stack.len() {
            let len = fibre.stack.len();
            let base: usize = if len > 64 { len } else { 64 };
            fibre.stack.resize(base * 2, PhpValue::Null);
            proof {
                assert(fibre.stack@ =~= grown_stack(old(fibre).stack@));
            }
        }
        let top = fibre.stack_top;
        fibre.stack.set(top, value);
        fibre.stack_top = top + 1;
        proof {
            assert(fibre.live() =~= old(fibre).live().push(value));
        }
    }

    /// Pops the top value; an empty stack gives `null`.
    pub fn pop(fibre: &mut Fibre) -> (r: PhpValue)
        requires
            old(fibre).stack_top <= old(fibre).stack@.len(),
        ensures
            old(fibre).stack_top == 0 ==> r == PhpValue::Null && *final(fibre) == *old(fibre),
            old(fibre).stack_top > 0 ==> {
                &&& r == old(fibre).live().last()
                &&& final(fibre).stack_top == old(fibre).stack_top - 1
                &&& final(fibre).live() == old(fibre).live().drop_last()
                &&& final(fibre).stack == old(fibre).stack
                &&& final(fibre).frames == old(fibre).frames
                &&& final(fibre).frame_count == old(fibre).frame_count
                &&& final(fibre).autoload_frame_depths == old(fibre).autoload_frame_depths
                &&& final(fibre).engine_state == old(fibre).engine_state
                &&& final(fibre).arena == old(fibre).arena
                &&& *final(fibre) == (Fibre { stack_top: final(fibre).stack_top, ..*old(fibre) })
            },
    {
        if fibre.stack_top == 0 {
            return PhpValue::Null;
        }
        fibre.stack_top = fibre.stack_top - 1;
        proof {
            assert(fibre.live() =~= old(fibre).live().drop_last());
        }
        fibre.stack[fibre.stack_top]
    }
}

/// Whether the handle a value holds points into the arena (with a closure's
/// bound `$this`).
pub open spec fn handle_ok(a: &Arena, v: PhpValue) -> bool {
    match v {
        PhpValue::Object(h) => h < a.objects@.len(),
        PhpValue::Closure(h) => h < a.closures@.len() && match a.closures@[h as int].this_val {
            Some(PhpValue::Object(h2)) => h2 < a.objects@.len(),
            _ => true,
        },
        _ => true,
    }
}

impl Fibre {
    /// The frames in use are stored, and each frame's `$this` slot, when
    /// it is on the stack, holds a handle into the arena.
    pub open spec fn frames_ok(&self) -> bool {
        &&& self.frame_count <= self.frames@.len()
        &&& self.stack_top <= self.stack@.len()
        &&& forall|i: int|
            0 <= i < self.frame_count && #[trigger] self.frames@[i].stack_window < self.stack_top
                ==> handle_ok(&self.arena, self.stack@[self.frames@[i].stack_window as int])
    }

    /// The class of the object a value holds, or 0.
    pub open spec fn object_class(&self, v: PhpValue) -> int {
        match v {
            PhpValue::Object(h) => self.arena.objects@[h as int].class_id as int,
            _ => 0,
        }
    }

    /// The class the current frame runs for: its own, else that of its
    /// `$this` object or closure.
    pub open spec fn top_frame_class(&self) -> int {
        let fr = self.frames@[self.frame_count - 1];
        if fr.called_class_id != 0 {
            fr.called_class_id as int
        } else if fr.stack_window < self.stack_top {
            match self.stack@[fr.stack_window as int] {
                PhpValue::Object(h) => self.arena.objects@[h as int].class_id as int,
                PhpValue::Closure(h) => {
                    let c = self.arena.closures@[h as int];
                    if c.called_class_id != 0 {
                        c.called_class_id as int
                    } else {
                        match c.this_val {
                            Some(v) => self.object_class(v),
                            None => 0,
                        }
                    }
                },
                _ => 0,
            }
        } else {
            0
        }
    }

    /// The class of the nearest of the first `i` frames, from the top,
    /// that has one of its own or a `$this` object with one; 0 if none.
    pub open spec fn lower_frames_class(&self, i: int) -> int
        decreases i,
    {
        if i <= 0 {
            0
        } else {
            let fr = self.frames@[i - 1];
            if fr.called_class_id != 0 {
                fr.called_class_id as int
            } else if fr.stack_window < self.stack_top && self.object_class(
                self.stack@[fr.stack_window as int],
            ) != 0 {
                self.object_class(self.stack@[fr.stack_window as int])
            } else {
                self.lower_frames_class(i - 1)
            }
        }
    }

    /// The class `static::` refers to in the current frame.
    pub open spec fn current_called_class(&self) -> int {
        if self.frame_count == 0 {
            0
        } else if self.top_frame_class() != 0 {
            self.top_frame_class()
        } else if self.lower_frames_class(self.frame_count - 1) != 0 {
            self.lower_frames_class(self.frame_count - 1)
        } else {
            match first_holder_from(
                self.engine_state.classes@,
                self.frames@[self.frame_count - 1].function,
                0,
            ) {
                Some(i) => i,
                None => 0,
            }
        }
    }
}

/// The first class at index `i` or later that holds `func`.
pub open spec fn first_holder_from(classes: Seq<PhpClass>, func: FunctionPtr, i: int) -> Option<int>
    decreases classes.len() - i,
{
    if i < 0 || i >= classes.len() {
        None
    } else if holds_method(classes[i], func) {
        Some(i)
    } else {
        first_holder_from(classes, func, i + 1)
    }
}

fn object_class_exec(f: &Fibre, v: PhpValue) -> (r: usize)
    requires
        handle_ok(&f.arena, v),
    ensures
        r as int == f.object_class(v),
{
    match v {
        PhpValue::Object(h) => f.arena.objects[h].class_id,
        _ => 0,
    }
}

pub(crate) fn holds_exec(c: &PhpClass, func: FunctionPtr) -> (r: bool)
    ensures
        r == holds_method(*c, func),
{
    let mut i: usize = 0;
    while i < c.methods.len()
        invariant
            i <= c.methods@.len(),
            forall|j: int| 0 <= j < i ==> c.methods@[j].1 != func,
        decreases c.methods@.len() - i,
    {
        if c.methods[i].1 == func {
            return true;
        }
        i = i + 1;
    }
    false
}

impl VM {
    /// The class `static::` refers to: that of the current frame or its
    /// `$this`, else that of the nearest frame below with one, else the
    /// first class holding the current function, else 0.
    pub fn get_current_called_class_id(fibre: &Fibre) -> (r: usize)
        requires
            fibre.frames_ok(),
        ensures
            r as int == fibre.current_called_class(),
    {
        let fc = fibre.frame_count;
        if fc == 0 {
            return 0;
        }
        let frame = fibre.frames[fc - 1];
        if frame.called_class_id != 0 {
            return frame.called_class_id;
        }
        if frame.stack_window < fibre.stack_top {
            assert(fibre.frames@[fc - 1].stack_window < fibre.stack_top);
            let this_val = fibre.stack[frame.stack_window];
            match this_val {
                PhpValue::Object(h) => {
                    let cid = fibre.arena.objects[h].class_id;
                    if cid != 0 {
                        return cid;
                    }
                },
                PhpValue::Closure(h) => {
                    let c = &fibre.arena.closures[h];
                    if c.called_class_id != 0 {
                        return c.called_class_id;
                    }
                    match c.this_val {
                        Some(PhpValue::Object(h2)) => {
                            let cid = fibre.arena.objects[h2].class_id;
                            if cid != 0 {
                                return cid;
                            }
                        },
                        _ => {},
                    }
                },
                _ => {},
            }
        }
        assert(fibre.top_frame_class() == 0);
        let mut i: usize = fc - 1;
        while i > 0
            invariant
                fibre.frames_ok(),
                fc == fibre.frame_count,
                i <= fc - 1,
                fc >= 1,
                frame == fibre.frames@[fc - 1],
                fibre.top_frame_class() == 0,
                fibre.lower_frames_class(fc - 1) == fibre.lower_frames_class(i as int),
            decreases i,
        {
            let f = fibre.frames[i - 1];
            if f.called_class_id != 0 {
                return f.called_class_id;
            }
            if f.stack_window < fibre.stack_top {
                assert(fibre.frames@[i - 1].stack_window < fibre.stack_top);
                let cid = object_class_exec(fibre, fibre.stack[f.stack_window]);
                if cid != 0 {
                    return cid;
                }
            }
            i = i - 1;
        }
        let classes = &fibre.engine_state.classes;
        let mut j: usize = 0;
        while j < classes.len()
            invariant
                j <= classes@.len(),
                fc >= 1,
                fc == fibre.frame_count,
                frame == fibre.frames@[fc - 1],
                fibre.top_frame_class() == 0,
                fibre.lower_frames_class(fc - 1) == 0,
                classes == &fibre.engine_state.classes,
                first_holder_from(classes@, frame.function, 0) == first_holder_from(classes@, frame.function, j as int),
            decreases classes@.len() - j,
        {
            if holds_exec(&classes[j], frame.function) {
                return j;
            }
            j = j + 1;
        }
        0
    }
}

} // verus!
