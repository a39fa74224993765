use vstd::prelude::*;
use dashmap::DashMap;
use crate::external::{index_get, index_entries, constant_entries};
use crate::names::{normalize_name, normalized, ascii_lower, eq_ignore_ascii_case, str_equal};
use crate::value::PhpValue;

verus! {

/// Identifies a compiled function: its index in [`EngineState::functions`].
#[derive(Clone, Copy, PartialEq, Eq, Structural, Debug)]
pub struct FunctionPtr(pub usize);

/// Member visibility of a method.
#[derive(Clone, Copy, PartialEq, Eq, Structural, Debug)]
pub enum Visibility {
    Public,
    Protected,
    Private,
}

/// A declared class: its name, parent and interfaces, methods and the
/// default values of its declared properties.
pub struct PhpClass {
    pub name: String,
    pub extends: Option<String>,
    pub implements: Vec<String>,
    pub methods: Vec<(String, FunctionPtr)>,
    pub default_properties: Vec<(String, PhpValue)>,
}

/// The class and constant tables shared by every fibre of the engine.
/// A class id is an index into `classes`; `class_map` and `func_map` index
/// normalized names; `autoloaders` are the registered class loaders.
pub struct EngineState {
    pub classes: Vec<PhpClass>,
    pub class_map: DashMap<String, usize>,
    pub func_map: DashMap<String, usize>,
    pub constants: DashMap<String, PhpValue>,
    pub default_statics: Vec<((String, String), PhpValue)>,
    pub functions: Vec<crate::function::PhpFunction>,
    pub autoloaders: Vec<PhpValue>,
}

/// The first class at index `i` or later whose normalized name is `norm`.
pub open spec fn scan_from(classes: Seq<PhpClass>, norm: Seq<char>, i: int) -> Option<int>
    decreases classes.len() - i,
{
    if i < 0 || i >= classes.len() {
        None
    } else if normalized(classes[i].name@) == norm {
        Some(i)
    } else {
        scan_from(classes, norm, i + 1)
    }
}

/// The view of an optional string.
pub open spec fn opt_str(o: Option<String>) -> Option<Seq<char>> {
    match o {
        Some(s) => Some(s@),
        None => None,
    }
}

/// The first method at index `i` or later whose key is exactly `name`.
pub open spec fn first_exact(ms: Seq<(String, FunctionPtr)>, name: Seq<char>, i: int) -> Option<FunctionPtr>
    decreases ms.len() - i,
{
    if i < 0 || i >= ms.len() {
        None
    } else if ms[i].0@ == name {
        Some(ms[i].1)
    } else {
        first_exact(ms, name, i + 1)
    }
}

/// The first method at index `i` or later whose key equals `name` up to
/// ASCII case.
pub open spec fn first_ignoring_case(ms: Seq<(String, FunctionPtr)>, name: Seq<char>, i: int) -> Option<FunctionPtr>
    decreases ms.len() - i,
{
    if i < 0 || i >= ms.len() {
        None
    } else if ascii_lower(ms[i].0@) == ascii_lower(name) {
        Some(ms[i].1)
    } else {
        first_ignoring_case(ms, name, i + 1)
    }
}

/// The method a class itself declares under `name`: an exact key first, then
/// the normalized key, then any key equal to `name` up to ASCII case.
pub open spec fn declared_method(c: PhpClass, name: Seq<char>) -> Option<FunctionPtr> {
    let ms = c.methods@;
    match first_exact(ms, name, 0) {
        Some(f) => Some(f),
        None => match first_exact(ms, normalized(name), 0) {
            Some(f) => Some(f),
            None => first_ignoring_case(ms, name, 0),
        },
    }
}

/// Walks the ancestry of class `id` by scanning class names, with `fuel`
/// steps: the first parent name that names no class, `None` when the
/// ancestry ends. `None` outside when the steps run out.
pub open spec fn missing_parent_from(classes: Seq<PhpClass>, id: int, fuel: nat) -> Option<Option<Seq<char>>>
    decreases fuel,
{
    if fuel == 0 {
        None
    } else if id < 0 || id >= classes.len() {
        Some(None)
    } else {
        match classes[id].extends {
            None => Some(None),
            Some(p) => match scan_from(classes, normalized(p@), 0) {
                Some(pid) => missing_parent_from(classes, pid, (fuel - 1) as nat),
                None => Some(Some(p@)),
            },
        }
    }
}

/// Whether the statics table has an entry for `(class, prop)`.
pub open spec fn has_static(statics: Seq<((String, String), PhpValue)>, class: Seq<char>, prop: Seq<char>) -> bool {
    exists|i: int| 0 <= i < statics.len() && #[trigger] statics[i].0.0@ == class && statics[i].0.1@ == prop
}

/// The class part of the statics key for `prop`, searched from the
/// normalized class name `cur` up its ancestry, with `fuel` steps:
/// `Some(None)` when no class on the way has the key.
pub open spec fn static_owner_from(
    classes: Seq<PhpClass>,
    statics: Seq<((String, String), PhpValue)>,
    cur: Seq<char>,
    prop: Seq<char>,
    fuel: nat,
) -> Option<Option<Seq<char>>>
    decreases fuel,
{
    if fuel == 0 {
        None
    } else if has_static(statics, cur, prop) {
        Some(Some(cur))
    } else {
        match scan_from(classes, cur, 0) {
            Some(i) => match classes[i].extends {
                Some(p) => static_owner_from(classes, statics, normalized(p@), prop, (fuel - 1) as nat),
                None => Some(None),
            },
            None => Some(None),
        }
    }
}

impl EngineState {
    /// The id a class name resolves to: through `class_map` by its normalized
    /// form, else the first class whose normalized name matches.
    pub open spec fn class_id_by_name(&self, name: Seq<char>) -> Option<int> {
        let n = normalized(name);
        if index_entries(self.class_map).contains_key(n) {
            Some(index_entries(self.class_map)[n] as int)
        } else {
            scan_from(self.classes@, n, 0)
        }
    }

    /// Method lookup through the ancestry of class `id`, with `fuel` steps:
    /// `None` when the steps run out, `Err(p)` when the parent `p` is not
    /// declared, `Ok(f)` otherwise.
    pub open spec fn lookup_from(&self, id: int, name: Seq<char>, fuel: nat) -> Option<
        Result<Option<FunctionPtr>, Seq<char>>,
    >
        decreases fuel,
    {
        if fuel == 0 {
            None
        } else if id < 0 || id >= self.classes@.len() {
            Some(Ok(None))
        } else {
            let c = self.classes@[id];
            match declared_method(c, name) {
                Some(f) => Some(Ok(Some(f))),
                None => match c.extends {
                    None => Some(Ok(None)),
                    Some(p) => match self.class_id_by_name(p@) {
                        None => Some(Err(p@)),
                        Some(pid) => self.lookup_from(pid, name, (fuel - 1) as nat),
                    },
                },
            }
        }
    }

    /// The result of looking `name` up from class `id`; ancestry that
    /// does not end within as many steps as there are classes is a cycle.
    pub open spec fn method_lookup(&self, id: int, name: Seq<char>) -> Option<
        Result<Option<FunctionPtr>, Seq<char>>,
    > {
        self.lookup_from(id, name, (self.classes@.len() + 1) as nat)
    }

    /// The id the class index holds for a class name, after normalizing it.
    pub fn find_class_id(&self, class_name: &str) -> (r: Option<usize>)
        ensures
            r == index_entries(self.class_map).get(normalized(class_name@)),
    {
        let norm = normalize_name(class_name);
        index_get(&self.class_map, norm.as_str())
    }

    /// The id the function index holds for a function name, after
    /// normalizing it.
    pub fn find_func_id(&self, func_name: &str) -> (r: Option<usize>)
        ensures
            r == index_entries(self.func_map).get(normalized(func_name@)),
    {
        let norm = normalize_name(func_name);
        index_get(&self.func_map, norm.as_str())
    }

    /// Resolves a class name the way method lookup does.
    pub fn resolve_class_name(&self, name: &str) -> (r: Option<usize>)
        ensures
            match r {
                Some(i) => self.class_id_by_name(name@) == Some(i as int),
                None => self.class_id_by_name(name@) is None,
            },
    {
        let norm = normalize_name(name);
        match index_get(&self.class_map, norm.as_str()) {
            Some(id) => Some(id),
            None => scan_classes(self.classes.as_slice(), &norm),
        }
    }

    /// The method class `class_id` or its nearest ancestor declares under
    /// `method_name`; `Err` names a parent class that is not declared.
    pub fn lookup_method(&self, class_id: usize, method_name: &str) -> (r: Result<
        Option<FunctionPtr>,
        String,
    >)
        requires
            self.method_lookup(class_id as int, method_name@) is Some,
        ensures
            match r {
                Ok(f) => self.method_lookup(class_id as int, method_name@) == Some(
                    Ok::<Option<FunctionPtr>, Seq<char>>(f),
                ),
                Err(p) => self.method_lookup(class_id as int, method_name@) == Some(
                    Err::<Option<FunctionPtr>, Seq<char>>(p@),
                ),
            },
    {
        let ghost total = self.method_lookup(class_id as int, method_name@);
        let ghost mut fuel: nat = (self.classes@.len() + 1) as nat;
        let mut current_id = class_id;
        loop
            invariant
                self.lookup_from(current_id as int, method_name@, fuel) == total,
                total == self.method_lookup(class_id as int, method_name@),
                total is Some,
            decreases fuel,
        {
            assert(fuel > 0);
            if current_id >= self.classes.len() {
                assert(self.lookup_from(current_id as int, method_name@, fuel) == Some(
                    Ok::<Option<FunctionPtr>, Seq<char>>(None),
                ));
                return Ok(None);
            }
            let c = &self.classes[current_id];
            match declared_method_of(c, method_name) {
                Some(f) => {
                    return Ok(Some(f));
                },
                None => {},
            }
            match &c.extends {
                None => {
                    return Ok(None);
                },
                Some(parent_name) => {
                    match self.resolve_class_name(parent_name.as_str()) {
                        None => {
                            assert(self.lookup_from(current_id as int, method_name@, fuel) == Some(
                                Err::<Option<FunctionPtr>, Seq<char>>(parent_name@),
                            ));
                            return Err(parent_name.clone());
                        },
                        Some(pid) => {
                            current_id = pid;
                            proof {
                                fuel = (fuel - 1) as nat;
                            }
                        },
                    }
                },
            }
        }
    }
}

/// The first class whose normalized name is `norm`.
pub fn scan_classes(classes: &[PhpClass], norm: &String) -> (r: Option<usize>)
    ensures
        match r {
            Some(i) => scan_from(classes@, norm@, 0) == Some(i as int) && i < classes@.len(),
            None => scan_from(classes@, norm@, 0) is None,
        },
{
    let mut i: usize = 0;
    while i < classes.len()
        invariant
            i <= classes@.len(),
            scan_from(classes@, norm@, 0) == scan_from(classes@, norm@, i as int),
        decreases classes@.len() - i,
    {
        let n = normalize_name(classes[i].name.as_str());
        if n == *norm {
            assert(scan_from(classes@, norm@, i as int) == Some(i as int));
            return Some(i);
        }
        i = i + 1;
    }
    None
}

/// The first method whose key is exactly `name`.
fn method_exact(ms: &Vec<(String, FunctionPtr)>, name: &str) -> (r: Option<FunctionPtr>)
    ensures
        r == first_exact(ms@, name@, 0),
{
    let mut i: usize = 0;
    while i < ms.len()
        invariant
            i <= ms@.len(),
            first_exact(ms@, name@, 0) == first_exact(ms@, name@, i as int),
        decreases ms@.len() - i,
    {
        if str_equal(ms[i].0.as_str(), name) {
            return Some(ms[i].1);
        }
        i = i + 1;
    }
    None
}

/// The first method whose key equals `name` up to ASCII case.
fn method_ignoring_case(ms: &Vec<(String, FunctionPtr)>, name: &str) -> (r: Option<FunctionPtr>)
    ensures
        r == first_ignoring_case(ms@, name@, 0),
{
    let mut i: usize = 0;
    while i < ms.len()
        invariant
            i <= ms@.len(),
            first_ignoring_case(ms@, name@, 0) == first_ignoring_case(ms@, name@, i as int),
        decreases ms@.len() - i,
    {
        if eq_ignore_ascii_case(ms[i].0.as_str(), name) {
            return Some(ms[i].1);
        }
        i = i + 1;
    }
    None
}

/// The method a class itself declares under `name`.
pub fn declared_method_of(c: &PhpClass, name: &str) -> (r: Option<FunctionPtr>)
    ensures
        r == declared_method(*c, name@),
{
    match method_exact(&c.methods, name) {
        Some(f) => Some(f),
        None => {
            let norm = normalize_name(name);
            match method_exact(&c.methods, norm.as_str()) {
                Some(f) => Some(f),
                None => method_ignoring_case(&c.methods, name),
            }
        },
    }
}

} // verus!
