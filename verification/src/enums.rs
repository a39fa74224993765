use vstd::prelude::*;
use crate::args::{alloc_array, heap, positional_array};
use crate::classes::PhpClass;
use crate::fibre::Fibre;
use crate::http::{decimal, push_decimal, to_lowercase, unicode_lowercase};
use crate::names::{normalize_name, normalized, push_char, str_equal};
use crate::throw::{append, debug_value, debug_value_exec, property_exec, property_from};
use crate::value::{data_handle_ok, parse_i64, parse_i64_exec, Arena, ArrayKey, PhpArray, PhpValue};
use crate::vm::VM;

verus! {

/// A static-property table: values by (normalized class name, property name).
pub type StaticTable = Seq<((String, String), PhpValue)>;

/// The first value `t` holds for class `c` and property `p`, from index `i` on.
pub open spec fn static_value(t: StaticTable, c: Seq<char>, p: Seq<char>, i: int) -> Option<PhpValue>
    decreases t.len() - i,
{
    if i < 0 || i >= t.len() {
        None
    } else if t[i].0.0@ == c && t[i].0.1@ == p {
        Some(t[i].1)
    } else {
        static_value(t, c, p, i + 1)
    }
}

/// The static properties class `cls` declares, in the order of the
/// declarations `d`, each with its current value in `cur` where it has one
/// and its default otherwise.
pub open spec fn declared_cases(d: StaticTable, cur: StaticTable, cls: Seq<char>) -> Seq<(Seq<char>, PhpValue)>
    decreases d.len(),
{
    if d.len() == 0 {
        seq![]
    } else {
        let rest = declared_cases(d.drop_last(), cur, cls);
        let e = d.last();
        if e.0.0@ == cls {
            rest.push(
                (
                    e.0.1@,
                    match static_value(cur, cls, e.0.1@, 0) {
                        Some(v) => v,
                        None => e.1,
                    },
                ),
            )
        } else {
            rest
        }
    }
}

/// Whether a list of named values holds one named `p`.
pub open spec fn names_prop(ps: Seq<(Seq<char>, PhpValue)>, p: Seq<char>) -> bool {
    exists|i: int| 0 <= i < ps.len() && (#[trigger] ps[i]).0 == p
}

/// `ps` followed by the properties of class `cls` in `cur` that it does
/// not name yet, in the order of `cur`.
pub open spec fn added_cases(ps: Seq<(Seq<char>, PhpValue)>, cur: StaticTable, cls: Seq<char>) -> Seq<(Seq<char>, PhpValue)>
    decreases cur.len(),
{
    if cur.len() == 0 {
        ps
    } else {
        let rest = added_cases(ps, cur.drop_last(), cls);
        let e = cur.last();
        if e.0.0@ == cls && !names_prop(rest, e.0.1@) {
            rest.push((e.0.1@, e.1))
        } else {
            rest
        }
    }
}

impl Fibre {
    /// The static properties of the class with normalized name `cls`, which
    /// for an enum are its cases: first those the engine declares, with
    /// their current values, then those only set at run time.
    pub open spec fn enum_cases(&self, cls: Seq<char>) -> Seq<(Seq<char>, PhpValue)> {
        added_cases(
            declared_cases(self.engine_state.default_statics@, self.static_properties@, cls),
            self.static_properties@,
            cls,
        )
    }
}

fn static_lookup(t: &Vec<((String, String), PhpValue)>, c: &str, p: &str) -> (r: Option<PhpValue>)
    ensures
        r == static_value(t@, c@, p@, 0),
{
    let mut i: usize = 0;
    while i < t.len()
        invariant
            i <= t@.len(),
            static_value(t@, c@, p@, 0) == static_value(t@, c@, p@, i as int),
        decreases t@.len() - i,
    {
        if str_equal(t[i].0.0.as_str(), c) && str_equal(t[i].0.1.as_str(), p) {
            return Some(t[i].1);
        }
        i = i + 1;
    }
    None
}

fn names_prop_exec(ps: &Vec<(String, PhpValue)>, p: &str) -> (r: bool)
    ensures
        r == names_prop(ps@.map_values(|e: (String, PhpValue)| (e.0@, e.1)), p@),
{
    let ghost v = ps@.map_values(|e: (String, PhpValue)| (e.0@, e.1));
    let mut i: usize = 0;
    while i < ps.len()
        invariant
            i <= ps@.len(),
            v == ps@.map_values(|e: (String, PhpValue)| (e.0@, e.1)),
            forall|j: int| 0 <= j < i ==> v[j].0 != p@,
        decreases ps@.len() - i,
    {
        if str_equal(ps[i].0.as_str(), p) {
            assert(v[i as int].0 == p@);
            return true;
        }
        i = i + 1;
    }
    false
}

/// The named values of a list, as plain values.
pub open spec fn named_view(ps: Seq<(String, PhpValue)>) -> Seq<(Seq<char>, PhpValue)> {
    ps.map_values(|e: (String, PhpValue)| (e.0@, e.1))
}

impl Fibre {
    /// Collects the cases of the enum with normalized name `cls` (see
    /// [`Fibre::enum_cases`]).
    fn collect_enum_cases(&self, cls: &str) -> (r: Vec<(String, PhpValue)>)
        ensures
            named_view(r@) == self.enum_cases(cls@),
    {
        let d = &self.engine_state.default_statics;
        let cur = &self.static_properties;
        let mut out: Vec<(String, PhpValue)> = Vec::new();
        let mut i: usize = 0;
        while i < d.len()
            invariant
                i <= d@.len(),
                d == &self.engine_state.default_statics,
                cur == &self.static_properties,
                named_view(out@) == declared_cases(d@.take(i as int), cur@, cls@),
            decreases d@.len() - i,
        {
            proof {
                assert(d@.take(i + 1).drop_last() =~= d@.take(i as int));
                assert(d@.take(i + 1).last() == d@[i as int]);
            }
            if str_equal(d[i].0.0.as_str(), cls) {
                let v = match static_lookup(cur, cls, d[i].0.1.as_str()) {
                    Some(v) => v,
                    None => d[i].1,
                };
                let name = d[i].0.1.clone();
                out.push((name, v));
                proof {
                    assert(named_view(out@) =~= declared_cases(d@.take(i + 1), cur@, cls@));
                }
            }
            i = i + 1;
        }
        proof {
            assert(d@.take(d@.len() as int) =~= d@);
        }
        let ghost declared = named_view(out@);
        let mut k: usize = 0;
        while k < cur.len()
            invariant
                k <= cur@.len(),
                cur == &self.static_properties,
                declared == declared_cases(self.engine_state.default_statics@, cur@, cls@),
                named_view(out@) == added_cases(declared, cur@.take(k as int), cls@),
            decreases cur@.len() - k,
        {
            proof {
                assert(cur@.take(k + 1).drop_last() =~= cur@.take(k as int));
                assert(cur@.take(k + 1).last() == cur@[k as int]);
            }
            if str_equal(cur[k].0.0.as_str(), cls) && !names_prop_exec(&out, cur[k].0.1.as_str()) {
                let name = cur[k].0.1.clone();
                out.push((name, cur[k].1));
                proof {
                    assert(named_view(out@) =~= added_cases(declared, cur@.take(k + 1), cls@));
                }
            }
            k = k + 1;
        }
        proof {
            assert(cur@.take(cur@.len() as int) =~= cur@);
        }
        out
    }
}

/// How `i32::to_string` writes `n`: a `-` for a negative number, then the
/// decimal digits of its magnitude.
pub open spec fn int_decimal(n: int) -> Seq<char> {
    let digits = if n < 0 { decimal((-n) as nat) } else { decimal(n as nat) };
    let body = digits.map_values(|b: u8| b as char);
    if n < 0 {
        seq!['-'] + body
    } else {
        body
    }
}

fn int_decimal_exec(n: i32) -> (r: String)
    ensures
        r@ == int_decimal(n as int),
{
    let mut out = String::new();
    let wide: i64 = n as i64;
    let mag: u64 = if wide < 0 {
        (-wide) as u64
    } else {
        wide as u64
    };
    if wide < 0 {
        push_char(&mut out, '-');
    }
    let ghost start = out@;
    let mut digits: Vec<u8> = Vec::new();
    push_decimal(&mut digits, mag);
    assert(digits@ =~= decimal(mag as nat));
    let ghost body = digits@.map_values(|b: u8| b as char);
    let mut i: usize = 0;
    while i < digits.len()
        invariant
            i <= digits@.len(),
            body == digits@.map_values(|b: u8| b as char),
            out@ == start + body.take(i as int),
        decreases digits@.len() - i,
    {
        let c: char = digits[i] as char;
        proof {
            assert(body.take(i + 1) =~= body.take(i as int).push(c));
        }
        push_char(&mut out, c);
        i = i + 1;
    }
    proof {
        assert(body.take(digits@.len() as int) =~= body);
        assert(out@ =~= int_decimal(n as int));
    }
    out
}

/// Whether a case's backing value `val` matches the value `target` asked
/// for: two integers or two strings when equal; an integer and a string
/// when the string, read as an `i32` the way `str::parse` reads it, is
/// that integer (reading it as an `i64` gives the same integer exactly
/// then); a string and an integer when the string is how the integer is
/// written; any other two values when they are the same value.
pub open spec fn backing_matches(a: &Arena, val: PhpValue, target: PhpValue) -> bool {
    match (val, target) {
        (PhpValue::Int(x), PhpValue::Int(y)) => x == y,
        (PhpValue::Str(i), PhpValue::Str(j)) => a.strings@[i as int]@ == a.strings@[j as int]@,
        (PhpValue::Int(x), PhpValue::Str(j)) => parse_i64(a.strings@[j as int]@) == Some(x as i64),
        (PhpValue::Str(i), PhpValue::Int(y)) => a.strings@[i as int]@ == int_decimal(y as int),
        _ => val == target,
    }
}

fn backing_matches_exec(a: &Arena, val: PhpValue, target: PhpValue) -> (r: bool)
    requires
        data_handle_ok(a, val),
        data_handle_ok(a, target),
    ensures
        r == backing_matches(a, val, target),
{
    match (val, target) {
        (PhpValue::Int(x), PhpValue::Int(y)) => x == y,
        (PhpValue::Str(i), PhpValue::Str(j)) => str_equal(a.strings[i].as_str(), a.strings[j].as_str()),
        (PhpValue::Int(x), PhpValue::Str(j)) => match parse_i64_exec(a.strings[j].as_str()) {
            Some(n) => n == x as i64,
            None => false,
        },
        (PhpValue::Str(i), PhpValue::Int(y)) => {
            let d = int_decimal_exec(y);
            str_equal(a.strings[i].as_str(), d.as_str())
        },
        _ => val == target,
    }
}

/// The backing value of an enum case: the `value` property of a case that
/// is an object.
pub open spec fn backing_value(a: &Arena, case_val: PhpValue) -> Option<PhpValue> {
    match case_val {
        PhpValue::Object(h) => property_from(a.objects@[h as int].properties@, "value"@, 0),
        _ => None,
    }
}

/// The first case, from index `i` on, whose backing value matches `target`.
pub open spec fn first_backed(a: &Arena, cases: Seq<(Seq<char>, PhpValue)>, target: PhpValue, i: int) -> Option<PhpValue>
    decreases cases.len() - i,
{
    if i < 0 || i >= cases.len() {
        None
    } else {
        match backing_value(a, cases[i].1) {
            Some(v) => if backing_matches(a, v, target) {
                Some(cases[i].1)
            } else {
                first_backed(a, cases, target, i + 1)
            },
            None => first_backed(a, cases, target, i + 1),
        }
    }
}

/// The cases' objects and the strings their backing values name are in the
/// heap.
pub open spec fn cases_in_heap(a: &Arena, cases: Seq<(Seq<char>, PhpValue)>) -> bool {
    forall|i: int|
        0 <= i < cases.len() ==> match #[trigger] cases[i].1 {
            PhpValue::Object(h) => h < a.objects@.len() && match backing_value(a, cases[i].1) {
                Some(v) => data_handle_ok(a, v),
                None => true,
            },
            _ => true,
        }
}

/// Whether a class is an enum: it extends, or implements, `BackedEnum` or
/// `UnitEnum`.
pub open spec fn is_enum_class(c: PhpClass) -> bool {
    let enum_name = |n: Seq<char>| n == "BackedEnum"@ || n == "UnitEnum"@;
    ||| (c.extends matches Some(p) && enum_name(p@))
    ||| exists|i: int| 0 <= i < c.implements@.len() && enum_name((#[trigger] c.implements@[i])@)
}

/// The value `from` and `tryFrom` look for: the first argument, else `null`.
pub open spec fn backing_target(args: Seq<PhpValue>) -> PhpValue {
    if args.len() > 0 {
        args[0]
    } else {
        PhpValue::Null
    }
}

impl Fibre {
    /// Whether class `class_id` exists and is an enum.
    pub open spec fn is_enum(&self, class_id: usize) -> bool {
        class_id < self.engine_state.classes@.len() && is_enum_class(self.engine_state.classes@[class_id as int])
    }

    /// The cases of enum `class_id`.
    pub open spec fn cases_of(&self, class_id: usize) -> Seq<(Seq<char>, PhpValue)> {
        self.enum_cases(normalized(self.engine_state.classes@[class_id as int].name@))
    }

    /// What an enum built-in reads is in the heap: the cases' objects and
    /// backing strings, and the string asked for.
    pub open spec fn enum_builtin_ok(&self, class_id: usize, args: Seq<PhpValue>) -> bool {
        self.is_enum(class_id) ==> {
            &&& cases_in_heap(&self.arena, self.cases_of(class_id))
            &&& data_handle_ok(&self.arena, backing_target(args))
        }
    }

    /// The outcome of the enum built-in `method` (already lower-cased) on
    /// class `class_id` with `args`, from this fibre to `after` with result
    /// `r`. Only `cases`, `from` and `tryfrom` on an enum are built in; the
    /// rest gives `None` and changes nothing. `cases` gives a new array of
    /// the cases' values keyed 0, 1, ...; `from` and `tryfrom` give the
    /// first case whose backing value matches the first argument, else
    /// `null` for `tryfrom` and a `ValueError` message for `from`.
    pub open spec fn enum_builtin_done(
        &self,
        class_id: usize,
        method: Seq<char>,
        args: Seq<PhpValue>,
        r: Option<Result<PhpValue, String>>,
        after: Fibre,
    ) -> bool {
        if !(method == "cases"@ || method == "tryfrom"@ || method == "from"@) || !self.is_enum(class_id) {
            r is None && after == *self
        } else {
            let cases = self.cases_of(class_id);
            let h = heap(&self.arena);
            if method == "cases"@ {
                &&& r == Some(Ok::<PhpValue, String>(PhpValue::Array(h.1.len() as usize)))
                &&& heap(&after.arena) == (
                    h.0,
                    h.1.push(positional_array(cases.map_values(|c: (Seq<char>, PhpValue)| c.1), 0, cases.len() as int)),
                    h.2,
                    h.3,
                )
                &&& after.arena.closures == self.arena.closures
                &&& after == (Fibre { arena: after.arena, ..*self })
            } else {
                let target = backing_target(args);
                &&& after == *self
                &&& match first_backed(&self.arena, cases, target, 0) {
                    Some(v) => r == Some(Ok::<PhpValue, String>(v)),
                    None => if method == "tryfrom"@ {
                        r == Some(Ok::<PhpValue, String>(PhpValue::Null))
                    } else {
                        r matches Some(Err(m)) && m@ == "Uncaught ValueError: "@ + debug_value(target)
                            + " is not a valid backing value for enum "@ + self.engine_state.classes@[class_id as int].name@
                    },
                }
            }
        }
    }
}

fn is_enum_exec(c: &PhpClass) -> (r: bool)
    ensures
        r == is_enum_class(*c),
{
    let by_parent = match &c.extends {
        Some(p) => str_equal(p.as_str(), "BackedEnum") || str_equal(p.as_str(), "UnitEnum"),
        None => false,
    };
    if by_parent {
        return true;
    }
    let mut i: usize = 0;
    while i < c.implements.len()
        invariant
            i <= c.implements@.len(),
            forall|j: int| 0 <= j < i ==> !((#[trigger] c.implements@[j])@ == "BackedEnum"@ || c.implements@[j]@ == "UnitEnum"@),
        decreases c.implements@.len() - i,
    {
        if str_equal(c.implements[i].as_str(), "BackedEnum") || str_equal(c.implements[i].as_str(), "UnitEnum") {
            return true;
        }
        i = i + 1;
    }
    false
}

impl VM {
    /// Runs the enum built-in `norm_method`, a lower-cased method name, on
    /// class `class_id` (see [`Fibre::enum_builtin_done`]).
    pub fn run_enum_builtin(fibre: &mut Fibre, class_id: usize, norm_method: &str, args: &[PhpValue]) -> (r: Option<
        Result<PhpValue, String>,
    >)
        requires
            old(fibre).enum_builtin_ok(class_id, args@),
        ensures
            old(fibre).enum_builtin_done(class_id, norm_method@, args@, r, *final(fibre)),
    {
        let is_cases = str_equal(norm_method, "cases");
        let is_try_from = str_equal(norm_method, "tryfrom");
        let is_from = str_equal(norm_method, "from");
        if !is_cases && !is_try_from && !is_from {
            return None;
        }
        if class_id >= fibre.engine_state.classes.len() {
            return None;
        }
        if !is_enum_exec(&fibre.engine_state.classes[class_id]) {
            return None;
        }
        let norm_class = normalize_name(fibre.engine_state.classes[class_id].name.as_str());
        let cases = fibre.collect_enum_cases(norm_class.as_str());
        let ghost cv = named_view(cases@);
        if is_cases {
            let ghost vals = cv.map_values(|c: (Seq<char>, PhpValue)| c.1);
            let mut arr = PhpArray::new();
            let mut i: usize = 0;
            while i < cases.len()
                invariant
                    i <= cases@.len(),
                    cv == named_view(cases@),
                    vals == cv.map_values(|c: (Seq<char>, PhpValue)| c.1),
                    arr.view() == positional_array(vals, 0, i as int),
                decreases cases@.len() - i,
            {
                #[verifier::truncate]
                let key: i64 = i as i64;
                assert(vals[i as int] == cases@[i as int].1);
                arr.insert(ArrayKey::Int(key), cases[i].1);
                i = i + 1;
            }
            let v = alloc_array(&mut fibre.arena, arr);
            proof {
                assert(*final(fibre) == (Fibre { arena: fibre.arena, ..*old(fibre) }));
            }
            return Some(Ok(v));
        }
        let target = if args.len() > 0 {
            args[0]
        } else {
            PhpValue::Null
        };
        let a = &fibre.arena;
        let mut k: usize = 0;
        while k < cases.len()
            invariant
                k <= cases@.len(),
                cv == named_view(cases@),
                cv == old(fibre).cases_of(class_id),
                a == &old(fibre).arena,
                *fibre == *old(fibre),
                old(fibre).is_enum(class_id),
                !is_cases,
                is_cases == (norm_method@ == "cases"@),
                is_try_from == (norm_method@ == "tryfrom"@),
                is_from == (norm_method@ == "from"@),
                is_try_from || is_from,
                cases_in_heap(a, cv),
                data_handle_ok(a, target),
                target == backing_target(args@),
                first_backed(a, cv, target, 0) == first_backed(a, cv, target, k as int),
            decreases cases@.len() - k,
        {
            let case_val = cases[k].1;
            assert(cv[k as int].1 == case_val);
            match case_val {
                PhpValue::Object(h) => {
                    match property_exec(&a.objects[h].properties, "value") {
                        Some(v) => {
                            assert(backing_value(a, cv[k as int].1) == Some(v));
                            if backing_matches_exec(a, v, target) {
                                assert(first_backed(a, cv, target, k as int) == Some(case_val));
                                return Some(Ok(case_val));
                            }
                        },
                        None => {},
                    }
                },
                _ => {},
            }
            k = k + 1;
        }
        if is_try_from {
            Some(Ok(PhpValue::Null))
        } else {
            let mut m = String::new();
            append(&mut m, "Uncaught ValueError: ");
            let d = debug_value_exec(target);
            append(&mut m, d.as_str());
            append(&mut m, " is not a valid backing value for enum ");
            append(&mut m, fibre.engine_state.classes[class_id].name.as_str());
            Some(Err(m))
        }
    }

    /// The built-in static methods of enums, `cases`, `from` and `tryFrom`
    /// in any case: the method name is lower-cased (`str::to_lowercase`) and
    /// the built-in run (see [`VM::run_enum_builtin`]); `None` when the call
    /// is none of them.
    pub fn try_execute_enum_builtin(fibre: &mut Fibre, class_id: usize, method_name: &str, args: &[PhpValue]) -> (r: Option<
        Result<PhpValue, String>,
    >)
        requires
            old(fibre).enum_builtin_ok(class_id, args@),
        ensures
            old(fibre).enum_builtin_done(class_id, unicode_lowercase(method_name@), args@, r, *final(fibre)),
    {
        let norm_method = to_lowercase(method_name);
        Self::run_enum_builtin(fibre, class_id, norm_method.as_str(), args)
    }
}

} // verus!
