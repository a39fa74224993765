use vstd::prelude::*;
use crate::classes::{EngineState, FunctionPtr, PhpClass, Visibility};
use crate::external::index_entries;
use crate::fibre::Fibre;
use crate::names::normalized;
use crate::value::PhpValue;
use crate::vm::VM;

verus! {

/// The id the parent of class `id` resolves to, if `id` is a class with a
/// parent that resolves.
pub open spec fn parent_id(e: &EngineState, id: int) -> Option<int> {
    if 0 <= id < e.classes@.len() {
        match e.classes@[id].extends {
            Some(p) => e.class_id_by_name(p@),
            None => None,
        }
    } else {
        None
    }
}

/// Whether class `child` is `parent` or descends from it, with `fuel` steps.
pub open spec fn is_sub_from(e: &EngineState, child: int, parent: int, fuel: nat) -> Option<bool>
    decreases fuel,
{
    if fuel == 0 {
        None
    } else if child == parent {
        Some(true)
    } else {
        match parent_id(e, child) {
            None => Some(false),
            Some(p) => is_sub_from(e, p, parent, (fuel - 1) as nat),
        }
    }
}

/// Whether class `c` holds `func` among its methods.
pub open spec fn holds_method(c: PhpClass, func: FunctionPtr) -> bool {
    exists|i: int| 0 <= i < c.methods@.len() && #[trigger] c.methods@[i].1 == func
}

/// The first class from `id` up its ancestry that holds `func`, with `fuel`
/// steps.
pub open spec fn declaring_from(e: &EngineState, id: int, func: FunctionPtr, fuel: nat) -> Option<Option<int>>
    decreases fuel,
{
    if fuel == 0 {
        None
    } else if 0 <= id < e.classes@.len() && holds_method(e.classes@[id], func) {
        Some(Some(id))
    } else {
        match parent_id(e, id) {
            None => Some(None),
            Some(p) => declaring_from(e, p, func, (fuel - 1) as nat),
        }
    }
}

/// Short-circuit disjunction of two computations that may not end.
pub open spec fn or_else(a: Option<bool>, b: Option<bool>) -> Option<bool> {
    match a {
        Some(true) => Some(true),
        Some(false) => b,
        None => None,
    }
}

/// The number of steps any walk up the ancestry needs.
pub open spec fn walk_fuel(e: &EngineState) -> nat {
    (e.classes@.len() + 1) as nat
}

/// Whether code running in the frame `caller_frame_idx` may call `func`,
/// found on class `target`: public methods always; others only from a frame
/// with a class that is related, by descent either way, to the declaring
/// class or to `target`. `None` when an ancestry walk does not end.
pub open spec fn accessible(f: &Fibre, target: usize, func: FunctionPtr, caller_frame_idx: usize) -> Option<bool> {
    let e = &f.engine_state;
    if e.functions@[func.0 as int].visibility == Visibility::Public {
        Some(true)
    } else if caller_frame_idx >= f.frame_count {
        Some(false)
    } else if f.frames@[caller_frame_idx as int].called_class_id == 0 {
        Some(false)
    } else {
        let caller = f.frames@[caller_frame_idx as int].called_class_id as int;
        match declaring_from(e, target as int, func, walk_fuel(e)) {
            None => None,
            Some(d) => {
                let declaring = match d {
                    Some(id) => id,
                    None => target as int,
                };
                if caller == declaring || caller == target {
                    Some(true)
                } else {
                    or_else(
                        is_sub_from(e, caller, declaring, walk_fuel(e)),
                        or_else(
                            is_sub_from(e, declaring, caller, walk_fuel(e)),
                            or_else(
                                is_sub_from(e, caller, target as int, walk_fuel(e)),
                                is_sub_from(e, target as int, caller, walk_fuel(e)),
                            ),
                        ),
                    )
                }
            },
        }
    }
}

/// Whether class `child` is `parent` or descends from it.
fn is_sub(e: &EngineState, child: usize, parent: usize) -> (r: bool)
    requires
        is_sub_from(e, child as int, parent as int, walk_fuel(e)) is Some,
    ensures
        is_sub_from(e, child as int, parent as int, walk_fuel(e)) == Some(r),
{
    let ghost total = is_sub_from(e, child as int, parent as int, walk_fuel(e));
    let ghost mut fuel = walk_fuel(e);
    let mut cur = child;
    loop
        invariant
            is_sub_from(e, cur as int, parent as int, fuel) == total,
            total == is_sub_from(e, child as int, parent as int, walk_fuel(e)),
            total is Some,
        decreases fuel,
    {
        assert(fuel > 0);
        if cur == parent {
            return true;
        }
        match parent_of(e, cur) {
            None => {
                return false;
            },
            Some(p) => {
                cur = p;
                proof {
                    fuel = (fuel - 1) as nat;
                }
            },
        }
    }
}

/// The id the parent of class `id` resolves to.
fn parent_of(e: &EngineState, id: usize) -> (r: Option<usize>)
    ensures
        match r {
            Some(p) => parent_id(e, id as int) == Some(p as int),
            None => parent_id(e, id as int) is None,
        },
{
    if id >= e.classes.len() {
        return None;
    }
    match &e.classes[id].extends {
        Some(p) => e.resolve_class_name(p.as_str()),
        None => None,
    }
}

/// Whether class `c` holds `func` among its methods.
fn holds(c: &PhpClass, func: FunctionPtr) -> (r: bool)
    ensures
        r == holds_method(*c, func),
{
    let mut i: usize = 0;
    while i < c.methods.len()
        invariant
            i <= c.methods@.len(),
            forall|j: int| 0 <= j < i ==> c.methods@[j].1 != func,
        decreases c.methods@.len() - i,
    {
        if c.methods[i].1 == func {
            return true;
        }
        i = i + 1;
    }
    false
}

/// The first class from `id` up its ancestry that holds `func`.
fn declaring_class(e: &EngineState, id: usize, func: FunctionPtr) -> (r: Option<usize>)
    requires
        declaring_from(e, id as int, func, walk_fuel(e)) is Some,
    ensures
        declaring_from(e, id as int, func, walk_fuel(e)) == Some(
            match r {
                Some(d) => Some(d as int),
                None => None::<int>,
            },
        ),
{
    let ghost total = declaring_from(e, id as int, func, walk_fuel(e));
    let ghost mut fuel = walk_fuel(e);
    let mut cur = id;
    loop
        invariant
            declaring_from(e, cur as int, func, fuel) == total,
            total == declaring_from(e, id as int, func, walk_fuel(e)),
            total is Some,
        decreases fuel,
    {
        assert(fuel > 0);
        if cur < e.classes.len() && holds(&e.classes[cur], func) {
            return Some(cur);
        }
        match parent_of(e, cur) {
            None => {
                return None;
            },
            Some(p) => {
                cur = p;
                proof {
                    fuel = (fuel - 1) as nat;
                }
            },
        }
    }
}

impl VM {
    /// Whether code running in frame `caller_frame_idx` may call `func`, a
    /// method found on class `target_class_id`.
    pub fn is_method_accessible(
        fibre: &Fibre,
        target_class_id: usize,
        func: FunctionPtr,
        caller_frame_idx: usize,
    ) -> (r: bool)
        requires
            func.0 < fibre.engine_state.functions@.len(),
            fibre.frame_count <= fibre.frames@.len(),
            accessible(fibre, target_class_id, func, caller_frame_idx) is Some,
        ensures
            accessible(fibre, target_class_id, func, caller_frame_idx) == Some(r),
    {
        let e = &fibre.engine_state;
        match e.functions[func.0].visibility {
            Visibility::Public => {
                return true;
            },
            _ => {},
        }
        if caller_frame_idx >= fibre.frame_count {
            return false;
        }
        let caller = fibre.frames[caller_frame_idx].called_class_id;
        if caller == 0 {
            return false;
        }
        let declaring = match declaring_class(e, target_class_id, func) {
            Some(d) => d,
            None => target_class_id,
        };
        caller == declaring || caller == target_class_id || is_sub(e, caller, declaring) || is_sub(
            e,
            declaring,
            caller,
        ) || is_sub(e, caller, target_class_id) || is_sub(e, target_class_id, caller)
    }
}

} // verus!
