use vstd::prelude::*;
use crate::classes::Visibility;

verus! {

/// A default value written in a parameter list, as the compiler hands it
/// over. A float is carried by its IEEE-754 bit pattern.
pub enum DefaultValue {
    Int(i64),
    Float(u64),
    String(String),
    Bool(bool),
    Null,
    Constant(String),
    ClassConstant(String, String),
    Array(Vec<(Option<DefaultValue>, DefaultValue)>),
    New(String, Vec<DefaultValue>),
}

/// A compiled parameter.
pub struct CompiledParam {
    pub name: String,
    pub has_default: bool,
    pub default_value: Option<DefaultValue>,
    pub by_ref: bool,
    pub is_variadic: bool,
}

/// A `try`/`catch` region of a chunk: instructions `start_ip..=end_ip`
/// are covered, and a matching exception resumes at `catch_ip`.
#[derive(Debug)]
pub struct ExceptionHandler {
    pub start_ip: usize,
    pub end_ip: usize,
    pub catch_ip: usize,
    pub catch_class: String,
    pub stack_depth: usize,
}

/// A `finally` region of a chunk.
#[derive(Clone, Copy, Debug)]
pub struct FinallyHandler {
    pub start_ip: usize,
    pub end_ip: usize,
    pub finally_ip: usize,
    pub stack_depth: usize,
}

/// The bytecode of a function and its tables; `constants` holds the
/// values its instructions refer to by index.
pub struct Chunk {
    pub code: Vec<u8>,
    pub constants: Vec<crate::value::PhpValue>,
    pub exception_handlers: Vec<ExceptionHandler>,
    pub finally_handlers: Vec<FinallyHandler>,
    pub local_names: Vec<String>,
}

/// A compiled function or method.
pub struct PhpFunction {
    pub name: String,
    pub arity: usize,
    pub num_locals: usize,
    pub params: Vec<CompiledParam>,
    pub visibility: Visibility,
    pub chunk: Chunk,
}

/// A closure: the function it runs, the class it was made in, the `$this`
/// it is bound to and the values it captured.
pub struct PhpClosure {
    pub function_ptr: crate::classes::FunctionPtr,
    pub called_class_id: usize,
    pub this_val: Option<crate::value::PhpValue>,
    pub upvalues: Vec<crate::value::PhpValue>,
}

} // verus!
