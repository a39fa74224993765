use vstd::prelude::*;
use crate::function::PhpFunction;
use crate::vm::VM;

verus! {

/// Whether a function can be inlined as a leaf: its code is 1 to 128 bytes,
/// it has no `finally` region, and none of its bytes is one of the
/// `blocking` opcodes (calls, yields, generators, `eval`, includes, throws
/// and loops).
pub open spec fn inlinable_leaf(func: PhpFunction, blocking: Seq<u8>) -> bool {
    let code = func.chunk.code@;
    &&& 0 < code.len() <= 128
    &&& func.chunk.finally_handlers@.len() == 0
    &&& forall|i: int| 0 <= i < code.len() ==> !blocking.contains(#[trigger] code[i])
}

fn contains_byte(bs: &[u8], b: u8) -> (r: bool)
    ensures
        r == bs@.contains(b),
{
    let mut i: usize = 0;
    while i < bs.len()
        invariant
            i <= bs@.len(),
            forall|j: int| 0 <= j < i ==> bs@[j] != b,
        decreases bs@.len() - i,
    {
        if bs[i] == b {
            assert(bs@[i as int] == b);
            return true;
        }
        i = i + 1;
    }
    false
}

impl VM {
    /// Whether `func` can be inlined as a leaf (see [`inlinable_leaf`]);
    /// `blocking_opcodes` are the byte values of the opcodes that rule it
    /// out.
    pub fn is_inlinable_leaf_function(func: &PhpFunction, blocking_opcodes: &[u8]) -> (r: bool)
        ensures
            r == inlinable_leaf(*func, blocking_opcodes@),
    {
        let code = &func.chunk.code;
        if code.len() == 0 || code.len() > 128 {
            return false;
        }
        if func.chunk.finally_handlers.len() > 0 {
            return false;
        }
        let mut i: usize = 0;
        while i < code.len()
            invariant
                code == &func.chunk.code,
                i <= code@.len(),
                forall|j: int| 0 <= j < i ==> !blocking_opcodes@.contains(#[trigger] code@[j]),
            decreases code@.len() - i,
        {
            if contains_byte(blocking_opcodes, code[i]) {
                return false;
            }
            i = i + 1;
        }
        true
    }
}

} // verus!
