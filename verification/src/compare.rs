use vstd::prelude::*;
use crate::value::{Arena, PhpValue, data_handle_ok, is_truthy, truthy};
use crate::vm::VM;

verus! {

/// Whether `null == v` in PHP 8: `v` is null, `false`, `0`, `0.0` or
/// `-0.0` (a float whose bits other than the sign are all 0), the empty
/// string, the string `"0"` or the empty array.
pub open spec fn equals_null(a: &Arena, v: PhpValue) -> bool {
    match v {
        PhpValue::Null => true,
        PhpValue::Bool(b) => !b,
        PhpValue::Int(i) => i == 0,
        PhpValue::Float(bits) => bits & 0x7fff_ffff_ffff_ffffu64 == 0,
        PhpValue::Str(h) => a.strings@[h as int]@.len() == 0 || a.strings@[h as int]@ == seq!['0'],
        PhpValue::Array(h) => a.arrays@[h as int].elements@.len() == 0,
        _ => false,
    }
}

impl VM {
    /// `null == other` (see [`equals_null`]).
    pub fn php8_null_eq(other: &PhpValue, arena: &Arena) -> (r: bool)
        requires
            crate::resolve::value_ok(arena, *other),
        ensures
            r == equals_null(arena, *other),
    {
        match *other {
            PhpValue::Null => true,
            PhpValue::Bool(b) => !b,
            PhpValue::Int(i) => i == 0,
            PhpValue::Float(bits) => bits & 0x7fff_ffff_ffff_ffffu64 == 0,
            PhpValue::Str(h) => {
                let s = arena.strings[h].as_str();
                proof {
                    reveal_strlit("0");
                    assert("0"@ =~= seq!['0']);
                }
                s.is_empty() || crate::names::str_equal(s, "0")
            },
            PhpValue::Array(h) => arena.arrays[h].elements.len() == 0,
            _ => false,
        }
    }
}

/// What loose equality (`==`) decides without floating-point numbers.
#[derive(PartialEq, Eq, Debug)]
pub enum LooseEq {
    /// The answer.
    Known(bool),
    /// Two numbers, or a number or string against a string: they compare
    /// as floating-point numbers (a string when it reads as a number).
    Numeric,
    /// Two distinct objects or two arrays: they compare member by member.
    Members,
}

/// PHP 8's `==` as far as it needs no floating-point number: two integers,
/// two booleans or two nulls compare directly; `null` against anything
/// compares as [`equals_null`]; a boolean against anything compares
/// truthiness; numbers and strings against numbers or strings are
/// [`LooseEq::Numeric`]; an object equals itself, and otherwise two objects
/// or two arrays are [`LooseEq::Members`]; anything else differs.
pub open spec fn loose_eq(a: &Arena, x: PhpValue, y: PhpValue) -> LooseEq {
    let num = |v: PhpValue| v is Int || v is Float;
    match (x, y) {
        (PhpValue::Int(i), PhpValue::Int(j)) => LooseEq::Known(i == j),
        (PhpValue::Null, _) => LooseEq::Known(equals_null(a, y)),
        (_, PhpValue::Null) => LooseEq::Known(equals_null(a, x)),
        (PhpValue::Bool(_), _) | (_, PhpValue::Bool(_)) => LooseEq::Known(truthy(a, x) == truthy(a, y)),
        (PhpValue::Object(p), PhpValue::Object(q)) => if p == q {
            LooseEq::Known(true)
        } else {
            LooseEq::Members
        },
        (PhpValue::Array(_), PhpValue::Array(_)) => LooseEq::Members,
        _ => if (num(x) || x is Str) && (num(y) || y is Str) {
            LooseEq::Numeric
        } else {
            LooseEq::Known(false)
        },
    }
}

/// The outcome of an ordered comparison.
#[derive(Clone, Copy, PartialEq, Eq, Structural, Debug)]
pub enum Order {
    Less,
    Equal,
    Greater,
}

/// What PHP's ordering (`<`, `<=>` and the rest) decides without
/// floating-point numbers.
#[derive(PartialEq, Eq, Debug)]
pub enum CompareStep {
    /// The answer.
    Known(Order),
    /// Numbers, or strings that may read as numbers: compared as
    /// floating-point numbers or, a string that does not read as one, as
    /// strings.
    Numeric,
    /// Two distinct arrays: compared by size, then key by key.
    Members,
}

/// The order of two booleans (`false` first).
pub open spec fn bool_order(p: bool, q: bool) -> Order {
    if p == q {
        Order::Equal
    } else if q {
        Order::Less
    } else {
        Order::Greater
    }
}

/// PHP's ordering as far as it needs no floating-point number: an array
/// ranks above anything else and equals itself; `null` against a string
/// compares `""` with it; with a boolean or `null` on either side,
/// truthiness compares; two integers compare as integers; numbers and
/// strings against numbers or strings are [`CompareStep::Numeric`];
/// anything else compares equal.
pub open spec fn compare_step(a: &Arena, x: PhpValue, y: PhpValue) -> CompareStep {
    let num = |v: PhpValue| v is Int || v is Float;
    match (x, y) {
        (PhpValue::Array(p), PhpValue::Array(q)) => if p == q {
            CompareStep::Known(Order::Equal)
        } else {
            CompareStep::Members
        },
        (PhpValue::Array(_), _) => CompareStep::Known(Order::Greater),
        (_, PhpValue::Array(_)) => CompareStep::Known(Order::Less),
        (PhpValue::Null, PhpValue::Str(h)) => CompareStep::Known(
            if a.strings@[h as int]@.len() == 0 {
                Order::Equal
            } else {
                Order::Less
            },
        ),
        (PhpValue::Str(h), PhpValue::Null) => CompareStep::Known(
            if a.strings@[h as int]@.len() == 0 {
                Order::Equal
            } else {
                Order::Greater
            },
        ),
        (PhpValue::Bool(_), _) | (PhpValue::Null, _) | (_, PhpValue::Bool(_)) | (_, PhpValue::Null) => CompareStep::Known(
            bool_order(truthy(a, x), truthy(a, y)),
        ),
        (PhpValue::Int(i), PhpValue::Int(j)) => CompareStep::Known(
            if i < j {
                Order::Less
            } else if i == j {
                Order::Equal
            } else {
                Order::Greater
            },
        ),
        _ => if (num(x) || x is Str) && (num(y) || y is Str) {
            CompareStep::Numeric
        } else {
            CompareStep::Known(Order::Equal)
        },
    }
}

impl VM {
    /// PHP 8's `==` as far as it needs no floating-point number (see
    /// [`loose_eq`]).
    pub fn loose_equals_step(arena: &Arena, x: PhpValue, y: PhpValue) -> (r: LooseEq)
        requires
            crate::resolve::value_ok(arena, x),
            crate::resolve::value_ok(arena, y),
        ensures
            r == loose_eq(arena, x, y),
    {
        match (x, y) {
            (PhpValue::Int(i), PhpValue::Int(j)) => LooseEq::Known(i == j),
            (PhpValue::Null, _) => LooseEq::Known(Self::php8_null_eq(&y, arena)),
            (_, PhpValue::Null) => LooseEq::Known(Self::php8_null_eq(&x, arena)),
            (PhpValue::Bool(_), _) | (_, PhpValue::Bool(_)) => {
                assert(data_handle_ok(arena, x) && data_handle_ok(arena, y));
                LooseEq::Known(is_truthy(&x, arena) == is_truthy(&y, arena))
            },
            (PhpValue::Object(p), PhpValue::Object(q)) => if p == q {
                LooseEq::Known(true)
            } else {
                LooseEq::Members
            },
            (PhpValue::Array(_), PhpValue::Array(_)) => LooseEq::Members,
            _ => {
                let nx = match x {
                    PhpValue::Int(_) | PhpValue::Float(_) | PhpValue::Str(_) => true,
                    _ => false,
                };
                let ny = match y {
                    PhpValue::Int(_) | PhpValue::Float(_) | PhpValue::Str(_) => true,
                    _ => false,
                };
                if nx && ny {
                    LooseEq::Numeric
                } else {
                    LooseEq::Known(false)
                }
            },
        }
    }

    /// PHP's ordering as far as it needs no floating-point number (see
    /// [`compare_step`]).
    pub fn compare_values_step(arena: &Arena, x: PhpValue, y: PhpValue) -> (r: CompareStep)
        requires
            crate::resolve::value_ok(arena, x),
            crate::resolve::value_ok(arena, y),
        ensures
            r == compare_step(arena, x, y),
    {
        match (x, y) {
            (PhpValue::Array(p), PhpValue::Array(q)) => if p == q {
                CompareStep::Known(Order::Equal)
            } else {
                CompareStep::Members
            },
            (PhpValue::Array(_), _) => CompareStep::Known(Order::Greater),
            (_, PhpValue::Array(_)) => CompareStep::Known(Order::Less),
            (PhpValue::Null, PhpValue::Str(h)) => CompareStep::Known(
                if arena.strings[h].as_str().unicode_len() == 0 {
                    Order::Equal
                } else {
                    Order::Less
                },
            ),
            (PhpValue::Str(h), PhpValue::Null) => CompareStep::Known(
                if arena.strings[h].as_str().unicode_len() == 0 {
                    Order::Equal
                } else {
                    Order::Greater
                },
            ),
            (PhpValue::Bool(_), _) | (PhpValue::Null, _) | (_, PhpValue::Bool(_)) | (_, PhpValue::Null) => {
                assert(data_handle_ok(arena, x) && data_handle_ok(arena, y));
                let p = is_truthy(&x, arena);
                let q = is_truthy(&y, arena);
                CompareStep::Known(
                    if p == q {
                        Order::Equal
                    } else if q {
                        Order::Less
                    } else {
                        Order::Greater
                    },
                )
            },
            (PhpValue::Int(i), PhpValue::Int(j)) => CompareStep::Known(
                if i < j {
                    Order::Less
                } else if i == j {
                    Order::Equal
                } else {
                    Order::Greater
                },
            ),
            _ => {
                let nx = match x {
                    PhpValue::Int(_) | PhpValue::Float(_) | PhpValue::Str(_) => true,
                    _ => false,
                };
                let ny = match y {
                    PhpValue::Int(_) | PhpValue::Float(_) | PhpValue::Str(_) => true,
                    _ => false,
                };
                if nx && ny {
                    CompareStep::Numeric
                } else {
                    CompareStep::Known(Order::Equal)
                }
            },
        }
    }
}

} // verus!
