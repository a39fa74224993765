use vstd::prelude::*;
use vstd::set_lib::{set_int_range, lemma_int_range};
use crate::classes::{EngineState, PhpClass};
use crate::external::{index_entries, index_get};
use crate::fibre::Fibre;
use crate::names::{ascii_lower, ascii_lower_char, chars_of, eq_ignore_ascii_case, normalize_name, normalized, push_char, str_equal};
use crate::resolve::{closure_prefix, has_prefix, value_ok};
use crate::value::PhpValue;
use crate::vm::VM;

verus! {

/// The class the class index holds for a normalized name, if it exists.
pub open spec fn class_of(e: &EngineState, n: Seq<char>) -> Option<int> {
    let m = index_entries(e.class_map);
    if m.contains_key(n) && (m[n] as int) < e.classes@.len() {
        Some(m[n] as int)
    } else {
        None
    }
}

/// The normalized names a class extends or implements: its parent first,
/// then its interfaces.
pub open spec fn supertype_names(c: PhpClass) -> Seq<Seq<char>> {
    let ps = match c.extends {
        Some(p) => seq![normalized(p@)],
        None => Seq::empty(),
    };
    ps + c.implements@.map_values(|i: String| normalized(i@))
}

/// The supertypes of the class a normalized name stands for.
pub open spec fn successors(e: &EngineState, n: Seq<char>) -> Seq<Seq<char>> {
    match class_of(e, n) {
        Some(id) => supertype_names(e.classes@[id]),
        None => Seq::empty(),
    }
}

/// Whether each name of `p` after the first is a supertype of the one
/// before it.
pub open spec fn is_path(e: &EngineState, p: Seq<Seq<char>>) -> bool {
    &&& p.len() >= 1
    &&& forall|i: int| 0 <= i < p.len() - 1 ==> #[trigger] successors(e, p[i]).contains(p[i + 1])
}

/// Whether the class named `from` is `to` or extends or implements it,
/// directly or through its supertypes (both names normalized).
pub open spec fn inherits(e: &EngineState, from: Seq<char>, to: Seq<char>) -> bool {
    exists|p: Seq<Seq<char>>| #[trigger] is_path(e, p) && p[0] == from && p.last() == to
}

/// The normalized name `closure`.
pub open spec fn closure_name() -> Seq<char> {
    seq!['c', 'l', 'o', 's', 'u', 'r', 'e']
}

/// Whether a name is `static`, `self` or `parent` in any ASCII case.
pub open spec fn is_relative_keyword(s: Seq<char>) -> bool {
    ||| ascii_lower(s) == ascii_lower(seq!['s', 't', 'a', 't', 'i', 'c'])
    ||| ascii_lower(s) == ascii_lower(seq!['s', 'e', 'l', 'f'])
    ||| ascii_lower(s) == ascii_lower(seq!['p', 'a', 'r', 'e', 'n', 't'])
}

impl Fibre {
    /// The class name an `instanceof` test is against, normalized: a
    /// relative keyword is first resolved in the current frame.
    pub open spec fn instance_target(&self, target: Seq<char>) -> Seq<char> {
        if is_relative_keyword(target) {
            normalized(self.resolved_class_name(target))
        } else {
            normalized(target)
        }
    }

    /// Whether `v instanceof target` holds: a closure is an instance of
    /// `Closure`; an object is an instance of its own class and of every
    /// class and interface that class extends or implements, as far as they
    /// are loaded, and of `Closure` when its class is a compiled closure.
    pub open spec fn instance_of(&self, v: PhpValue, target: Seq<char>) -> bool {
        let t = self.instance_target(target);
        let e = &self.engine_state;
        match v {
            PhpValue::Closure(_) => t == closure_name(),
            PhpValue::Object(h) => {
                let o = self.arena.objects@[h as int];
                let initial = match o.class_name {
                    Some(n) => Some(n@),
                    None => if o.class_id < e.classes@.len() {
                        Some(e.classes@[o.class_id as int].name@)
                    } else {
                        None
                    },
                };
                match initial {
                    None => false,
                    Some(c) => inherits(e, normalized(c), t) || (t == closure_name() && o.class_id < e.classes@.len()
                        && has_prefix(e.classes@[o.class_id as int].name@, closure_prefix())),
                }
            },
            _ => false,
        }
    }
}

proof fn lemma_path_push(e: &EngineState, p: Seq<Seq<char>>, x: Seq<char>)
    requires
        is_path(e, p),
        successors(e, p.last()).contains(x),
    ensures
        is_path(e, p.push(x)),
        p.push(x)[0] == p[0],
        p.push(x).last() == x,
{
    let q = p.push(x);
    assert forall|i: int| 0 <= i < q.len() - 1 implies #[trigger] successors(e, q[i]).contains(q[i + 1]) by {
        if i < p.len() - 1 {
            assert(q[i] == p[i] && q[i + 1] == p[i + 1]);
        } else {
            assert(q[i] == p.last() && q[i + 1] == x);
        }
    }
}

/// Whether every id in `s` is below `n`.
pub open spec fn all_below(s: Seq<usize>, n: int) -> bool {
    forall|i: int| 0 <= i < s.len() ==> (#[trigger] s[i]) < n
}

/// Whether class `id` stands for some name reached from `start`.
pub open spec fn id_reached(e: &EngineState, start: Seq<char>, id: int) -> bool {
    exists|p: Seq<Seq<char>>| #[trigger] is_path(e, p) && p[0] == start && class_of(e, p.last()) == Some(id)
}

/// Whether every supertype of class `id` is not `t` and stands for no
/// class, a class in `vs`, or one in `work`.
pub open spec fn expanded(e: &EngineState, id: int, t: Seq<char>, vs: Set<int>, work: Seq<usize>) -> bool {
    forall|j: int|
        0 <= j < supertype_names(e.classes@[id]).len() ==> {
            let s = #[trigger] supertype_names(e.classes@[id])[j];
            &&& s != t
            &&& (match class_of(e, s) {
                Some(c) => vs.contains(c) || work.contains(c as usize),
                None => true,
            })
        }
}

proof fn lemma_expanded_mono(
    e: &EngineState,
    id: int,
    t: Seq<char>,
    vs1: Set<int>,
    w1: Seq<usize>,
    vs2: Set<int>,
    w2: Seq<usize>,
)
    requires
        expanded(e, id, t, vs1, w1),
        vs1.subset_of(vs2),
        forall|x: usize| w1.contains(x) ==> vs2.contains(x as int) || w2.contains(x),
    ensures
        expanded(e, id, t, vs2, w2),
{
    assert forall|j: int| 0 <= j < supertype_names(e.classes@[id]).len() implies {
        let s = #[trigger] supertype_names(e.classes@[id])[j];
        &&& s != t
        &&& (match class_of(e, s) {
            Some(c) => vs2.contains(c) || w2.contains(c as usize),
            None => true,
        })
    } by {
        let s = supertype_names(e.classes@[id])[j];
        match class_of(e, s) {
            Some(c) => {
                if w1.contains(c as usize) {
                    assert(vs2.contains((c as usize) as int) || w2.contains(c as usize));
                }
            },
            None => {},
        }
    }
}

proof fn lemma_closed(e: &EngineState, start: Seq<char>, t: Seq<char>, vs: Set<int>, p: Seq<Seq<char>>, i: int)
    requires
        start != t,
        match class_of(e, start) {
            Some(c) => vs.contains(c),
            None => true,
        },
        forall|id: int| #[trigger] vs.contains(id) ==> 0 <= id < e.classes@.len() && expanded(e, id, t, vs, Seq::empty()),
        is_path(e, p),
        p[0] == start,
        0 <= i < p.len(),
    ensures
        p[i] != t,
        match class_of(e, p[i]) {
            Some(c) => vs.contains(c),
            None => true,
        },
    decreases i,
{
    if i > 0 {
        lemma_closed(e, start, t, vs, p, i - 1);
        assert(successors(e, p[i - 1]).contains(p[(i - 1) + 1]));
        let id = class_of(e, p[i - 1])->0;
        assert(vs.contains(id));
        let j = choose|j: int| 0 <= j < supertype_names(e.classes@[id]).len() && supertype_names(e.classes@[id])[j] == p[i];
        assert(expanded(e, id, t, vs, Seq::empty()));
        let s = supertype_names(e.classes@[id])[j];
        assert(s == p[i]);
    }
}

/// The normalized supertype names of a class.
fn supertypes_exec(c: &PhpClass) -> (r: Vec<String>)
    ensures
        r@.map_values(|s: String| s@) == supertype_names(*c),
{
    let mut out: Vec<String> = Vec::new();
    let ghost ps = supertype_names(*c).take(if c.extends is Some { 1int } else { 0int });
    match &c.extends {
        Some(p) => {
            out.push(normalize_name(p.as_str()));
        },
        None => {},
    }
    assert(out@.map_values(|s: String| s@) =~= ps);
    assert(supertype_names(*c) =~= ps + c.implements@.map_values(|i: String| normalized(i@)));
    let ghost im = c.implements@.map_values(|i: String| normalized(i@));
    let mut i: usize = 0;
    while i < c.implements.len()
        invariant
            i <= c.implements@.len(),
            im == c.implements@.map_values(|i: String| normalized(i@)),
            out@.map_values(|s: String| s@) == ps + im.take(i as int),
        decreases c.implements@.len() - i,
    {
        let ghost before = out@.map_values(|s: String| s@);
        out.push(normalize_name(c.implements[i].as_str()));
        proof {
            assert(out@.map_values(|s: String| s@) =~= before.push(im[i as int]));
            assert(ps + im.take(i as int + 1) =~= (ps + im.take(i as int)).push(im[i as int]));
        }
        i = i + 1;
    }
    proof {
        assert(im.take(c.implements@.len() as int) =~= im);
    }
    out
}

/// The class the index holds for a normalized name, if it exists.
fn class_of_exec(e: &EngineState, n: &str) -> (r: Option<usize>)
    ensures
        match r {
            Some(id) => class_of(e, n@) == Some(id as int),
            None => class_of(e, n@) is None,
        },
{
    match index_get(&e.class_map, n) {
        Some(id) => if id < e.classes.len() {
            Some(id)
        } else {
            None
        },
        None => None,
    }
}

/// Whether the class named `start` (normalized) is `t` or inherits from it.
pub fn inherits_exec(e: &EngineState, start: &str, t: &str) -> (r: bool)
    ensures
        r == inherits(e, start@, t@),
{
    if str_equal(start, t) {
        assert(is_path(e, seq![start@]) && seq![start@][0] == start@ && seq![start@].last() == t@);
        return true;
    }
    let n: usize = e.classes.len();
    let mut visited: Vec<bool> = Vec::new();
    let mut q: usize = 0;
    while q < n
        invariant
            q <= n,
            visited@.len() == q,
            forall|i: int| 0 <= i < q ==> !(#[trigger] visited@[i]),
        decreases n - q,
    {
        visited.push(false);
        q = q + 1;
    }
    let ghost mut vs: Set<int> = Set::empty();
    proof {
        lemma_int_range(0, n as int);
    }
    let mut work: Vec<usize> = Vec::new();
    match class_of_exec(e, start) {
        Some(id) => {
            work.push(id);
            assert(is_path(e, seq![start@]) && seq![start@][0] == start@ && seq![start@].last() == start@);
            assert(work@[0] == id);
        },
        None => {},
    }
    while work.len() > 0
        invariant
            n == e.classes@.len(),
            start@ != t@,
            visited@.len() == n,
            set_int_range(0, n as int).finite(),
            vs.finite(),
            vs.subset_of(set_int_range(0, n as int)),
            forall|i: int| 0 <= i < n ==> (#[trigger] visited@[i] <==> vs.contains(i)),
            all_below(work@, n as int),
            forall|i: int| 0 <= i < work@.len() ==> id_reached(e, start@, #[trigger] work@[i] as int),
            forall|id: int| #[trigger] vs.contains(id) ==> id_reached(e, start@, id),
            forall|id: int| #[trigger] vs.contains(id) ==> expanded(e, id, t@, vs, work@),
            match class_of(e, start@) {
                Some(c) => vs.contains(c) || work@.contains(c as usize),
                None => true,
            },
        decreases set_int_range(0, n as int).difference(vs).len(), work@.len(),
    {
        let ghost before = work@;
        let id = work.pop().unwrap();
        let ghost rest = work@;
        assert(before =~= rest.push(id));
        assert(id_reached(e, start@, before[before.len() - 1] as int));
        assert(id < n) by {
            assert(before[before.len() - 1] < n);
        }
        if visited[id] {
            proof {
                assert forall|x: usize| before.contains(x) implies vs.contains(x as int) || rest.contains(x) by {
                    let i = choose|i: int| 0 <= i < before.len() && before[i] == x;
                    if i < rest.len() {
                        assert(rest[i] == x);
                    }
                }
                assert forall|c: int| #[trigger] vs.contains(c) implies expanded(e, c, t@, vs, work@) by {
                    lemma_expanded_mono(e, c, t@, vs, before, vs, rest);
                }
                assert forall|i: int| 0 <= i < work@.len() implies id_reached(e, start@, #[trigger] work@[i] as int) by {
                    assert(work@[i] == before[i]);
                }
                match class_of(e, start@) {
                    Some(c) => {
                        if before.contains(c as usize) {
                            assert(vs.contains((c as usize) as int) || rest.contains(c as usize));
                        }
                    },
                    None => {},
                }
            }
            continue;
        }
        visited.set(id, true);
        proof {
            assert(set_int_range(0, n as int).contains(id as int));
            set_int_range(0, n as int).lemma_set_insert_diff_decreases(vs, id as int);
            let vs0 = vs;
            vs = vs.insert(id as int);
            assert forall|x: usize| before.contains(x) implies vs.contains(x as int) || rest.contains(x) by {
                let i = choose|i: int| 0 <= i < before.len() && before[i] == x;
                if i < rest.len() {
                    assert(rest[i] == x);
                }
            }
            assert forall|c: int| #[trigger] vs.contains(c) && c != id implies expanded(e, c, t@, vs, work@) by {
                assert(vs0.contains(c));
                lemma_expanded_mono(e, c, t@, vs0, before, vs, rest);
            }
            assert forall|c: int| #[trigger] vs.contains(c) implies id_reached(e, start@, c) by {
                if c == id {
                    assert(id_reached(e, start@, before[before.len() - 1] as int));
                } else {
                    assert(vs0.contains(c));
                }
            }
            assert forall|i: int| 0 <= i < work@.len() implies id_reached(e, start@, #[trigger] work@[i] as int) by {
                assert(work@[i] == before[i]);
            }
            match class_of(e, start@) {
                Some(c) => {
                    if before.contains(c as usize) {
                        assert(vs.contains((c as usize) as int) || rest.contains(c as usize));
                    }
                },
                None => {},
            }
        }
        let sups = supertypes_exec(&e.classes[id]);
        let ghost sn = supertype_names(e.classes@[id as int]);
        let mut j: usize = 0;
        while j < sups.len()
            invariant
                n == e.classes@.len(),
                id < n,
                start@ != t@,
                id_reached(e, start@, id as int),
                sn == supertype_names(e.classes@[id as int]),
                sups@.map_values(|s: String| s@) == sn,
                j <= sups@.len(),
                vs.contains(id as int),
                all_below(work@, n as int),
                forall|i: int| 0 <= i < work@.len() ==> id_reached(e, start@, #[trigger] work@[i] as int),
                forall|c: int| #[trigger] vs.contains(c) && c != id ==> expanded(e, c, t@, vs, work@),
                forall|jj: int|
                    0 <= jj < j ==> {
                        let s = #[trigger] sn[jj];
                        &&& s != t@
                        &&& (match class_of(e, s) {
                            Some(c) => vs.contains(c) || work@.contains(c as usize),
                            None => true,
                        })
                    },
                match class_of(e, start@) {
                    Some(c) => vs.contains(c) || work@.contains(c as usize),
                    None => true,
                },
            decreases sups@.len() - j,
        {
            assert(sn[j as int] == sups@[j as int]@);
            if str_equal(sups[j].as_str(), t) {
                proof {
                    let p = choose|p: Seq<Seq<char>>| #[trigger] is_path(e, p) && p[0] == start@ && class_of(e, p.last()) == Some(id as int);
                    assert(successors(e, p.last()).contains(t@)) by {
                        assert(successors(e, p.last())[j as int] == t@);
                    }
                    lemma_path_push(e, p, t@);
                }
                return true;
            }
            match class_of_exec(e, sups[j].as_str()) {
                Some(c) => {
                    let ghost before = work@;
                    work.push(c);
                    proof {
                        let p = choose|p: Seq<Seq<char>>| #[trigger] is_path(e, p) && p[0] == start@ && class_of(e, p.last()) == Some(id as int);
                        assert(successors(e, p.last()).contains(sn[j as int])) by {
                            assert(successors(e, p.last())[j as int] == sn[j as int]);
                        }
                        lemma_path_push(e, p, sn[j as int]);
                        assert(id_reached(e, start@, c as int));
                        assert(work@[work@.len() - 1] == c);
                        assert forall|x: usize| before.contains(x) implies work@.contains(x) by {
                            let i = choose|i: int| 0 <= i < before.len() && before[i] == x;
                            assert(work@[i] == x);
                        }
                        assert(work@.contains(c));
                    }
                },
                None => {},
            }
            j = j + 1;
        }
        proof {
            assert(expanded(e, id as int, t@, vs, work@));
        }
    }
    proof {
        assert(work@ =~= Seq::<usize>::empty());
        assert forall|id: int| #[trigger] vs.contains(id) implies 0 <= id < e.classes@.len() && expanded(e, id, t@, vs, Seq::empty()) by {
            assert(expanded(e, id, t@, vs, work@));
        }
        assert forall|p: Seq<Seq<char>>| #[trigger] is_path(e, p) && p[0] == start@ implies p.last() != t@ by {
            lemma_closed(e, start@, t@, vs, p, p.len() - 1);
        }
    }
    false
}

/// The names of a list of strings.
pub open spec fn names_of(s: Seq<String>) -> Seq<Seq<char>> {
    s.map_values(|x: String| x@)
}

/// Whether some path of supertypes leads from `start` to `n`.
pub open spec fn reaches(e: &EngineState, start: Seq<char>, n: Seq<char>) -> bool {
    exists|p: Seq<Seq<char>>| #[trigger] is_path(e, p) && p[0] == start && p.last() == n
}

/// `n` lies on the way from `start`, no class is loaded under it, and it is
/// not among `tried`.
pub open spec fn unloaded_on_the_way(e: &EngineState, start: Seq<char>, n: Seq<char>, tried: Seq<Seq<char>>) -> bool {
    &&& reaches(e, start, n)
    &&& class_of(e, n) is None
    &&& !tried.contains(n)
}

/// Every supertype of class `id` is loaded or among `tried`.
pub open spec fn loaded_or_tried(e: &EngineState, id: int, tried: Seq<Seq<char>>) -> bool {
    forall|j: int|
        0 <= j < supertype_names(e.classes@[id]).len() ==> (class_of(e, #[trigger] supertype_names(e.classes@[id])[j]) is None
            ==> tried.contains(supertype_names(e.classes@[id])[j]))
}

fn name_in(names: &[String], n: &str) -> (r: bool)
    ensures
        r == names_of(names@).contains(n@),
{
    let ghost v = names_of(names@);
    let mut i: usize = 0;
    while i < names.len()
        invariant
            i <= names@.len(),
            v == names_of(names@),
            forall|k: int| 0 <= k < i ==> v[k] != n@,
        decreases names@.len() - i,
    {
        if str_equal(names[i].as_str(), n) {
            assert(v[i as int] == n@);
            return true;
        }
        i = i + 1;
    }
    false
}

/// Whether the class named `start` (normalized) is `t` or inherits from it
/// (see [`inherits_exec`]), and, when it does not, a name on the way from
/// it that no class is loaded under and that is not among `tried`, if there
/// is one (see [`unloaded_on_the_way`]).
pub fn inherits_walk(e: &EngineState, start: &str, t: &str, tried: &[String]) -> (r: (bool, Option<String>))
    ensures
        r.0 == inherits(e, start@, t@),
        !r.0 ==> match r.1 {
            Some(n) => unloaded_on_the_way(e, start@, n@, names_of(tried@)),
            None => forall|n: Seq<char>| #[trigger] reaches(e, start@, n) && class_of(e, n) is None ==> names_of(tried@).contains(n),
        },
{
    let ghost tv = names_of(tried@);
    if str_equal(start, t) {
        assert(is_path(e, seq![start@]) && seq![start@][0] == start@ && seq![start@].last() == t@);
        return (true, None);
    }
    let mut missing: Option<String> = None;
    let n: usize = e.classes.len();
    let mut visited: Vec<bool> = Vec::new();
    let mut q: usize = 0;
    while q < n
        invariant
            q <= n,
            visited@.len() == q,
            forall|i: int| 0 <= i < q ==> !(#[trigger] visited@[i]),
        decreases n - q,
    {
        visited.push(false);
        q = q + 1;
    }
    let ghost mut vs: Set<int> = Set::empty();
    proof {
        lemma_int_range(0, n as int);
    }
    let mut work: Vec<usize> = Vec::new();
    assert(is_path(e, seq![start@]) && seq![start@][0] == start@ && seq![start@].last() == start@);
    assert(reaches(e, start@, start@));
    match class_of_exec(e, start) {
        Some(id) => {
            work.push(id);
            assert(work@[0] == id);
        },
        None => {
            if !name_in(tried, start) {
                missing = Some(start.to_owned());
            }
        },
    }
    while work.len() > 0
        invariant
            n == e.classes@.len(),
            start@ != t@,
            visited@.len() == n,
            set_int_range(0, n as int).finite(),
            vs.finite(),
            vs.subset_of(set_int_range(0, n as int)),
            forall|i: int| 0 <= i < n ==> (#[trigger] visited@[i] <==> vs.contains(i)),
            all_below(work@, n as int),
            forall|i: int| 0 <= i < work@.len() ==> id_reached(e, start@, #[trigger] work@[i] as int),
            forall|id: int| #[trigger] vs.contains(id) ==> id_reached(e, start@, id),
            forall|id: int| #[trigger] vs.contains(id) ==> expanded(e, id, t@, vs, work@),
            match class_of(e, start@) {
                Some(c) => vs.contains(c) || work@.contains(c as usize),
                None => true,
            },
            tv == names_of(tried@),
            missing matches Some(m) ==> unloaded_on_the_way(e, start@, m@, tv),
            missing is None ==> (class_of(e, start@) is None ==> tv.contains(start@)),
            missing is None ==> forall|c: int| #[trigger] vs.contains(c) ==> loaded_or_tried(e, c, tv),
        decreases set_int_range(0, n as int).difference(vs).len(), work@.len(),
    {
        let ghost before = work@;
        let id = work.pop().unwrap();
        let ghost rest = work@;
        assert(before =~= rest.push(id));
        assert(id_reached(e, start@, before[before.len() - 1] as int));
        assert(id < n) by {
            assert(before[before.len() - 1] < n);
        }
        if visited[id] {
            proof {
                assert forall|x: usize| before.contains(x) implies vs.contains(x as int) || rest.contains(x) by {
                    let i = choose|i: int| 0 <= i < before.len() && before[i] == x;
                    if i < rest.len() {
                        assert(rest[i] == x);
                    }
                }
                assert forall|c: int| #[trigger] vs.contains(c) implies expanded(e, c, t@, vs, work@) by {
                    lemma_expanded_mono(e, c, t@, vs, before, vs, rest);
                }
                assert forall|i: int| 0 <= i < work@.len() implies id_reached(e, start@, #[trigger] work@[i] as int) by {
                    assert(work@[i] == before[i]);
                }
                match class_of(e, start@) {
                    Some(c) => {
                        if before.contains(c as usize) {
                            assert(vs.contains((c as usize) as int) || rest.contains(c as usize));
                        }
                    },
                    None => {},
                }
            }
            continue;
        }
        visited.set(id, true);
        proof {
            assert(set_int_range(0, n as int).contains(id as int));
            set_int_range(0, n as int).lemma_set_insert_diff_decreases(vs, id as int);
            let vs0 = vs;
            vs = vs.insert(id as int);
            assert forall|x: usize| before.contains(x) implies vs.contains(x as int) || rest.contains(x) by {
                let i = choose|i: int| 0 <= i < before.len() && before[i] == x;
                if i < rest.len() {
                    assert(rest[i] == x);
                }
            }
            assert forall|c: int| #[trigger] vs.contains(c) && c != id implies expanded(e, c, t@, vs, work@) by {
                assert(vs0.contains(c));
                lemma_expanded_mono(e, c, t@, vs0, before, vs, rest);
            }
            assert forall|c: int| #[trigger] vs.contains(c) implies id_reached(e, start@, c) by {
                if c == id {
                    assert(id_reached(e, start@, before[before.len() - 1] as int));
                } else {
                    assert(vs0.contains(c));
                }
            }
            assert forall|i: int| 0 <= i < work@.len() implies id_reached(e, start@, #[trigger] work@[i] as int) by {
                assert(work@[i] == before[i]);
            }
            match class_of(e, start@) {
                Some(c) => {
                    if before.contains(c as usize) {
                        assert(vs.contains((c as usize) as int) || rest.contains(c as usize));
                    }
                },
                None => {},
            }
        }
        let sups = supertypes_exec(&e.classes[id]);
        let ghost sn = supertype_names(e.classes@[id as int]);
        let mut j: usize = 0;
        while j < sups.len()
            invariant
                n == e.classes@.len(),
                id < n,
                start@ != t@,
                id_reached(e, start@, id as int),
                sn == supertype_names(e.classes@[id as int]),
                sups@.map_values(|s: String| s@) == sn,
                j <= sups@.len(),
                vs.contains(id as int),
                all_below(work@, n as int),
                forall|i: int| 0 <= i < work@.len() ==> id_reached(e, start@, #[trigger] work@[i] as int),
                forall|c: int| #[trigger] vs.contains(c) && c != id ==> expanded(e, c, t@, vs, work@),
                forall|jj: int|
                    0 <= jj < j ==> {
                        let s = #[trigger] sn[jj];
                        &&& s != t@
                        &&& (match class_of(e, s) {
                            Some(c) => vs.contains(c) || work@.contains(c as usize),
                            None => true,
                        })
                    },
                match class_of(e, start@) {
                    Some(c) => vs.contains(c) || work@.contains(c as usize),
                    None => true,
                },
                tv == names_of(tried@),
                missing matches Some(m) ==> unloaded_on_the_way(e, start@, m@, tv),
                missing is None ==> (class_of(e, start@) is None ==> tv.contains(start@)),
                missing is None ==> forall|c: int| #[trigger] vs.contains(c) && c != id ==> loaded_or_tried(e, c, tv),
                missing is None ==> forall|jj: int| 0 <= jj < j ==> (class_of(e, #[trigger] sn[jj]) is None ==> tv.contains(sn[jj])),
            decreases sups@.len() - j,
        {
            assert(sn[j as int] == sups@[j as int]@);
            if str_equal(sups[j].as_str(), t) {
                proof {
                    let p = choose|p: Seq<Seq<char>>| #[trigger] is_path(e, p) && p[0] == start@ && class_of(e, p.last()) == Some(id as int);
                    assert(successors(e, p.last()).contains(t@)) by {
                        assert(successors(e, p.last())[j as int] == t@);
                    }
                    lemma_path_push(e, p, t@);
                }
                return (true, missing);
            }
            match class_of_exec(e, sups[j].as_str()) {
                Some(c) => {
                    let ghost before = work@;
                    work.push(c);
                    proof {
                        let p = choose|p: Seq<Seq<char>>| #[trigger] is_path(e, p) && p[0] == start@ && class_of(e, p.last()) == Some(id as int);
                        assert(successors(e, p.last()).contains(sn[j as int])) by {
                            assert(successors(e, p.last())[j as int] == sn[j as int]);
                        }
                        lemma_path_push(e, p, sn[j as int]);
                        assert(id_reached(e, start@, c as int));
                        assert(work@[work@.len() - 1] == c);
                        assert forall|x: usize| before.contains(x) implies work@.contains(x) by {
                            let i = choose|i: int| 0 <= i < before.len() && before[i] == x;
                            assert(work@[i] == x);
                        }
                        assert(work@.contains(c));
                    }
                },
                None => {
                    if missing.is_none() && !name_in(tried, sups[j].as_str()) {
                        proof {
                            let p = choose|p: Seq<Seq<char>>| #[trigger] is_path(e, p) && p[0] == start@ && class_of(e, p.last()) == Some(id as int);
                            assert(successors(e, p.last()).contains(sn[j as int])) by {
                                assert(successors(e, p.last())[j as int] == sn[j as int]);
                            }
                            lemma_path_push(e, p, sn[j as int]);
                            assert(reaches(e, start@, sn[j as int]));
                        }
                        missing = Some(sups[j].clone());
                    }
                },
            }
            j = j + 1;
        }
        proof {
            assert(expanded(e, id as int, t@, vs, work@));
            if missing is None {
                assert(loaded_or_tried(e, id as int, tv));
            }
        }
    }
    proof {
        assert(work@ =~= Seq::<usize>::empty());
        assert forall|id: int| #[trigger] vs.contains(id) implies 0 <= id < e.classes@.len() && expanded(e, id, t@, vs, Seq::empty()) by {
            assert(expanded(e, id, t@, vs, work@));
        }
        assert forall|p: Seq<Seq<char>>| #[trigger] is_path(e, p) && p[0] == start@ implies p.last() != t@ by {
            lemma_closed(e, start@, t@, vs, p, p.len() - 1);
        }
        if missing is None {
            assert forall|nm: Seq<char>| #[trigger] reaches(e, start@, nm) && class_of(e, nm) is None implies tv.contains(nm) by {
                let p = choose|p: Seq<Seq<char>>| #[trigger] is_path(e, p) && p[0] == start@ && p.last() == nm;
                if p.len() == 1 {
                    assert(nm == start@);
                } else {
                    let k = p.len() - 2;
                    lemma_closed(e, start@, t@, vs, p, k);
                    assert(successors(e, p[k]).contains(p[k + 1]));
                    let c = class_of(e, p[k])->0;
                    assert(vs.contains(c));
                    assert(loaded_or_tried(e, c, tv));
                    let jj = choose|jj: int| 0 <= jj < supertype_names(e.classes@[c]).len() && supertype_names(e.classes@[c])[jj] == p[k + 1];
                    assert(p[k + 1] == nm);
                }
            }
        }
    }
    (false, missing)
}

pub(crate) fn is_relative_keyword_exec(s: &str) -> (r: bool)
    ensures
        r == is_relative_keyword(s@),
{
    proof {
        reveal_strlit("static");
        reveal_strlit("self");
        reveal_strlit("parent");
        assert("static"@ =~= seq!['s', 't', 'a', 't', 'i', 'c']);
        assert("self"@ =~= seq!['s', 'e', 'l', 'f']);
        assert("parent"@ =~= seq!['p', 'a', 'r', 'e', 'n', 't']);
    }
    eq_ignore_ascii_case(s, "static") || eq_ignore_ascii_case(s, "self") || eq_ignore_ascii_case(s, "parent")
}

fn has_closure_prefix(name: &str) -> (r: bool)
    ensures
        r == has_prefix(name@, closure_prefix()),
{
    let cs = chars_of(name);
    let p: Vec<char> = vec!['c', 'l', 'o', 's', 'u', 'r', 'e', '#'];
    assert(p@ =~= closure_prefix());
    if p.len() > cs.len() {
        return false;
    }
    let mut i: usize = 0;
    while i < p.len()
        invariant
            cs@ == name@,
            p@ == closure_prefix(),
            p@.len() <= cs@.len(),
            i <= p@.len(),
            forall|j: int| 0 <= j < i ==> cs@[j] == p@[j],
        decreases p@.len() - i,
    {
        if cs[i] != p[i] {
            proof {
                assert(cs@.take(p@.len() as int)[i as int] != p@[i as int]);
            }
            return false;
        }
        i = i + 1;
    }
    proof {
        assert(cs@.take(p@.len() as int) =~= p@);
    }
    true
}

impl VM {
    /// `obj_val instanceof target_class_name` over the classes loaded now
    /// (see [`Fibre::instance_of`]); `static`, `self` and `parent` are
    /// resolved in the current frame.
    pub fn instance_of_loaded(fibre: &Fibre, obj_val: PhpValue, target_class_name: &str) -> (r: bool)
        requires
            fibre.frames_ok(),
            fibre.frame_functions_ok(),
            fibre.stack_handles_ok(),
            value_ok(&fibre.arena, obj_val),
            is_relative_keyword(target_class_name@) ==> fibre.resolvable(target_class_name@),
        ensures
            r == fibre.instance_of(obj_val, target_class_name@),
    {
        let resolved = if is_relative_keyword_exec(target_class_name) {
            Self::resolve_dynamic_class_name(fibre, target_class_name)
        } else {
            target_class_name.to_owned()
        };
        let target_norm = normalize_name(resolved.as_str());
        proof {
            reveal_strlit("closure");
            assert("closure"@ =~= closure_name());
        }
        let closure_target = str_equal(target_norm.as_str(), "closure");
        let e = &fibre.engine_state;
        match obj_val {
            PhpValue::Closure(_) => closure_target,
            PhpValue::Object(h) => {
                let o = &fibre.arena.objects[h];
                let initial: Option<String> = match &o.class_name {
                    Some(cn) => Some(cn.clone()),
                    None => if o.class_id < e.classes.len() {
                        Some(e.classes[o.class_id].name.clone())
                    } else {
                        None
                    },
                };
                match initial {
                    None => false,
                    Some(c) => {
                        let cn = normalize_name(c.as_str());
                        if inherits_exec(e, cn.as_str(), target_norm.as_str()) {
                            true
                        } else if closure_target && o.class_id < e.classes.len() {
                            has_closure_prefix(e.classes[o.class_id].name.as_str())
                        } else {
                            false
                        }
                    },
                }
            },
            _ => false,
        }
    }
}

/// One decision of `instanceof` with autoloading.
#[derive(PartialEq, Eq, Debug)]
pub enum InstanceStep {
    /// The answer.
    Known(bool),
    /// Load this class (a name on the way from the object's class), then
    /// ask again with it among the names tried.
    Load(String),
}

impl Fibre {
    /// The normalized class name an object's `instanceof` walk starts from:
    /// its class name, else that of its class.
    pub open spec fn walk_start(&self, h: usize) -> Option<Seq<char>> {
        let o = self.arena.objects@[h as int];
        let e = &self.engine_state;
        match o.class_name {
            Some(n) => Some(normalized(n@)),
            None => if o.class_id < e.classes@.len() {
                Some(normalized(e.classes@[o.class_id as int].name@))
            } else {
                None
            },
        }
    }
}

impl Fibre {
    /// A decision of `obj_val instanceof target` with autoloading, the
    /// names in `tried` having been loaded already: `true` when the
    /// object's class reaches the target over the classes loaded now;
    /// otherwise a name on the way that is neither loaded nor tried, to be
    /// loaded, or, when every such name was tried, the answer over the
    /// classes loaded now (see [`Fibre::instance_of`]).
    pub open spec fn instance_step_is(&self, obj_val: PhpValue, target: Seq<char>, tried: Seq<Seq<char>>, r: InstanceStep) -> bool {
        match obj_val {
            PhpValue::Object(h) => match self.walk_start(h) {
                Some(c) => {
                    let t = self.instance_target(target);
                    let e = &self.engine_state;
                    if inherits(e, c, t) {
                        r == InstanceStep::Known(true)
                    } else {
                        match r {
                            InstanceStep::Load(n) => unloaded_on_the_way(e, c, n@, tried),
                            InstanceStep::Known(b) => {
                                &&& b == self.instance_of(obj_val, target)
                                &&& forall|n: Seq<char>| #[trigger] reaches(e, c, n) && class_of(e, n) is None ==> tried.contains(n)
                            },
                        }
                    }
                },
                None => r == InstanceStep::Known(false),
            },
            _ => r == InstanceStep::Known(self.instance_of(obj_val, target)),
        }
    }

    /// What a decision of `instanceof` reads.
    pub open spec fn instance_ok(&self, obj_val: PhpValue, target: Seq<char>) -> bool {
        &&& self.frames_ok()
        &&& self.frame_functions_ok()
        &&& self.stack_handles_ok()
        &&& value_ok(&self.arena, obj_val)
        &&& is_relative_keyword(target) ==> self.resolvable(target)
    }

    /// `obj_val instanceof target` with autoloading from this fibre, the
    /// names in `tried` loaded already and up to `loads` more loads to make
    /// through `load`, ends in `after` with `r`: a known answer (see
    /// [`Fibre::instance_step_is`]) is the result; a name to load is handed
    /// to `load` and the question asked again on the fibre it gives back,
    /// with the name among those tried; once no load is left, the answer
    /// over the classes loaded then.
    pub open spec fn instance_checked<F: Fn(Fibre, String) -> Fibre>(
        &self,
        obj_val: PhpValue,
        target: Seq<char>,
        tried: Seq<Seq<char>>,
        loads: nat,
        load: F,
        r: bool,
        after: Fibre,
    ) -> bool
        decreases loads,
    {
        exists|step: InstanceStep|
            #[trigger] self.instance_step_is(obj_val, target, tried, step) && match step {
                InstanceStep::Known(b) => r == b && after == *self,
                InstanceStep::Load(n) => if loads == 0 {
                    r == self.instance_of(obj_val, target) && after == *self
                } else {
                    exists|s: String, f2: Fibre|
                        #[trigger] call_ensures(load, (*self, s), f2) && s@ == n@ && f2.instance_checked(
                            obj_val,
                            target,
                            tried.push(n@),
                            (loads - 1) as nat,
                            load,
                            r,
                            after,
                        )
                },
            }
    }
}

impl VM {
    /// One decision of `obj_val instanceof target_class_name` with
    /// autoloading, the names in `tried` having been loaded already: when
    /// the object's class reaches the target over the classes loaded now,
    /// `true`; otherwise, when a name on the way is neither loaded nor
    /// tried, that name is to be loaded first; otherwise the answer over
    /// the classes loaded now (see [`Fibre::instance_of`]).
    pub fn is_instance_of(fibre: &Fibre, obj_val: PhpValue, target_class_name: &str, tried: &[String]) -> (r: InstanceStep)
        requires
            fibre.frames_ok(),
            fibre.frame_functions_ok(),
            fibre.stack_handles_ok(),
            value_ok(&fibre.arena, obj_val),
            is_relative_keyword(target_class_name@) ==> fibre.resolvable(target_class_name@),
        ensures
            fibre.instance_step_is(obj_val, target_class_name@, names_of(tried@), r),
    {
        let answer = Self::instance_of_loaded(fibre, obj_val, target_class_name);
        match obj_val {
            PhpValue::Object(h) => {
                let e = &fibre.engine_state;
                let o = &fibre.arena.objects[h];
                let initial: Option<String> = match &o.class_name {
                    Some(cn) => Some(cn.clone()),
                    None => if o.class_id < e.classes.len() {
                        Some(e.classes[o.class_id].name.clone())
                    } else {
                        None
                    },
                };
                match initial {
                    None => InstanceStep::Known(false),
                    Some(c) => {
                        let cn = normalize_name(c.as_str());
                        let resolved = if is_relative_keyword_exec(target_class_name) {
                            Self::resolve_dynamic_class_name(fibre, target_class_name)
                        } else {
                            target_class_name.to_owned()
                        };
                        let target_norm = normalize_name(resolved.as_str());
                        let (found, missing) = inherits_walk(e, cn.as_str(), target_norm.as_str(), tried);
                        if found {
                            InstanceStep::Known(true)
                        } else {
                            match missing {
                                Some(n) => InstanceStep::Load(n),
                                None => InstanceStep::Known(answer),
                            }
                        }
                    },
                }
            },
            _ => InstanceStep::Known(answer),
        }
    }
}

impl VM {
    /// `obj_val instanceof target_class_name`, loading the classes on the
    /// way through `load` (which runs the fibre's autoloaders), at most
    /// `max_loads` of them (see [`Fibre::instance_checked`]).
    pub fn instance_of_with_autoload<F: Fn(Fibre, String) -> Fibre>(
        fibre: Fibre,
        obj_val: PhpValue,
        target_class_name: &str,
        load: F,
        max_loads: usize,
    ) -> (r: (Fibre, bool))
        requires
            fibre.instance_ok(obj_val, target_class_name@),
            forall|f: Fibre, s: String| #[trigger] call_requires(load, (f, s)),
            forall|f: Fibre, s: String, f2: Fibre|
                #[trigger] call_ensures(load, (f, s), f2) && f.instance_ok(obj_val, target_class_name@) ==> f2.instance_ok(
                    obj_val,
                    target_class_name@,
                ),
        ensures
            fibre.instance_checked(obj_val, target_class_name@, seq![], max_loads as nat, load, r.1, r.0),
    {
        let ghost start = fibre;
        let mut fb = fibre;
        let mut tried: Vec<String> = Vec::new();
        let mut loads = max_loads;
        proof {
            assert(names_of(tried@) =~= seq![]);
        }
        loop
            invariant
                start == fibre,
                fb.instance_ok(obj_val, target_class_name@),
                forall|f: Fibre, s: String| #[trigger] call_requires(load, (f, s)),
                forall|f: Fibre, s: String, f2: Fibre|
                    #[trigger] call_ensures(load, (f, s), f2) && f.instance_ok(obj_val, target_class_name@) ==> f2.instance_ok(
                        obj_val,
                        target_class_name@,
                    ),
                forall|r: bool, after: Fibre|
                    #[trigger] fb.instance_checked(obj_val, target_class_name@, names_of(tried@), loads as nat, load, r, after)
                        ==> start.instance_checked(obj_val, target_class_name@, seq![], max_loads as nat, load, r, after),
            decreases loads,
        {
            let ghost cur = fb;
            let step = Self::is_instance_of(&fb, obj_val, target_class_name, tried.as_slice());
            let ghost gstep = step;
            match step {
                InstanceStep::Known(b) => {
                    assert(cur.instance_step_is(obj_val, target_class_name@, names_of(tried@), gstep));
                    assert(cur.instance_checked(obj_val, target_class_name@, names_of(tried@), loads as nat, load, b, fb));
                    return (fb, b);
                },
                InstanceStep::Load(n) => {
                    if loads == 0 {
                        let b = Self::instance_of_loaded(&fb, obj_val, target_class_name);
                        assert(cur.instance_step_is(obj_val, target_class_name@, names_of(tried@), gstep));
                        assert(cur.instance_checked(obj_val, target_class_name@, names_of(tried@), loads as nat, load, b, fb));
                        return (fb, b);
                    }
                    let ghost gn = n;
                    let ghost old_tried = names_of(tried@);
                    let ghost old_loads = loads;
                    let f2 = load(fb, n.clone());
                    fb = f2;
                    tried.push(n);
                    loads = loads - 1;
                    proof {
                        assert(names_of(tried@) =~= old_tried.push(gn@));
                        assert forall|r: bool, after: Fibre|
                            #[trigger] fb.instance_checked(obj_val, target_class_name@, names_of(tried@), loads as nat, load, r, after)
                                implies cur.instance_checked(obj_val, target_class_name@, old_tried, old_loads as nat, load, r, after) by {
                            assert(cur.instance_step_is(obj_val, target_class_name@, old_tried, gstep));
                        }
                    }
                },
            }
        }
    }
}

/// No normalized name is `A` (upper case): normalizing lower-cases ASCII.
proof fn lemma_normalized_not_upper_a(s: Seq<char>)
    ensures
        normalized(s) != seq!['A'],
{
    let n = normalized(s);
    if n.len() == 1 {
        if s.len() > 0 && s[0] == '\\' {
            assert(n[0] == ascii_lower_char(s.drop_first()[0]));
        } else {
            assert(n[0] == ascii_lower_char(s[0]));
        }
    }
}

/// Nothing reaches the name `A` from a normalized name.
proof fn lemma_never_reaches_upper_a(e: &EngineState, x: Seq<char>)
    ensures
        !inherits(e, normalized(x), seq!['A']),
{
    if inherits(e, normalized(x), seq!['A']) {
        let p = choose|p: Seq<Seq<char>>| #[trigger] is_path(e, p) && p[0] == normalized(x) && p.last() == seq!['A'];
        if p.len() == 1 {
            lemma_normalized_not_upper_a(x);
        } else {
            let k = p.len() - 2;
            assert(successors(e, p[k]).contains(p[k + 1]));
            let id = class_of(e, p[k])->0;
            let c = e.classes@[id];
            let j = choose|j: int| 0 <= j < supertype_names(c).len() && supertype_names(c)[j] == p[k + 1];
            let ps = match c.extends {
                Some(q) => seq![normalized(q@)],
                None => Seq::<Seq<char>>::empty(),
            };
            assert(supertype_names(c) == ps + c.implements@.map_values(|i: String| normalized(i@)));
            if j < ps.len() {
                lemma_normalized_not_upper_a(c.extends->0@);
            } else {
                lemma_normalized_not_upper_a(c.implements@[j - ps.len()]@);
            }
        }
    }
}

/// A name on the way from the class named `x` (normalized) that no class is
/// loaded under and that is not among `tried`, if there is one.
pub fn unloaded_from(e: &EngineState, x: &str, tried: &[String]) -> (r: Option<String>)
    ensures
        match r {
            Some(n) => unloaded_on_the_way(e, normalized(x@), n@, names_of(tried@)),
            None => forall|n: Seq<char>| #[trigger] reaches(e, normalized(x@), n) && class_of(e, n) is None ==> names_of(
                tried@,
            ).contains(n),
        },
{
    let start = normalize_name(x);
    let never: Vec<char> = vec!['A'];
    let mut target = String::new();
    push_char(&mut target, never[0]);
    proof {
        assert(target@ =~= seq!['A']);
        lemma_never_reaches_upper_a(e, x@);
    }
    let (_, missing) = inherits_walk(e, start.as_str(), target.as_str(), tried);
    missing
}

} // verus!
