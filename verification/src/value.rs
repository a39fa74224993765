use vstd::prelude::*;
use crate::names::{chars_of, str_equal};

verus! {

/// A PHP value as the interpreter passes it around: scalars inline, and
/// strings, arrays, objects and closures as handles into an [`Arena`].
/// A float is carried by its IEEE-754 bit pattern; no arithmetic on it
/// happens here.
#[derive(Clone, Copy, PartialEq, Eq, Structural, Debug)]
pub enum PhpValue {
    Null,
    Bool(bool),
    Int(i32),
    Float(u64),
    Str(usize),
    Array(usize),
    Object(usize),
    Closure(usize),
}

/// The key of an array element: an integer, or an interned string.
#[derive(Clone, Copy, PartialEq, Eq, Structural, Debug)]
pub enum ArrayKey {
    Int(i64),
    StringId(usize),
}

/// An ordered PHP array: its elements in insertion order, and the key the
/// next appended element gets.
pub struct PhpArray {
    pub elements: Vec<(ArrayKey, PhpValue)>,
    pub next_free: i64,
}

/// A PHP object: the class it was made from and its properties.
pub struct PhpObject {
    pub class_id: usize,
    pub class_name: Option<String>,
    pub properties: Vec<(String, PhpValue)>,
    pub destructed: bool,
}

/// The heap of a fibre: the targets of the handles held by [`PhpValue`].
pub struct Arena {
    pub strings: Vec<String>,
    pub arrays: Vec<PhpArray>,
    pub objects: Vec<PhpObject>,
    pub closures: Vec<crate::function::PhpClosure>,
    pub interned: Vec<String>,
}

/// The value of a string of ASCII digits.
pub open spec fn digits_value(s: Seq<char>) -> int
    decreases s.len(),
{
    if s.len() == 0 {
        0
    } else {
        digits_value(s.drop_last()) * 10 + (s.last() as int - '0' as int)
    }
}

/// Whether every character is an ASCII digit.
pub open spec fn all_digits(s: Seq<char>) -> bool {
    forall|i: int| 0 <= i < s.len() ==> '0' <= #[trigger] s[i] <= '9'
}

/// What `str::parse::<i64>` gives: an optional `+` or `-` followed by one or
/// more ASCII digits, whose value fits in an `i64`.
pub open spec fn parse_i64(s: Seq<char>) -> Option<i64> {
    let neg = s.len() > 0 && s[0] == '-';
    let body = if s.len() > 0 && (s[0] == '-' || s[0] == '+') { s.drop_first() } else { s };
    let v = if neg { -digits_value(body) } else { digits_value(body) };
    if body.len() == 0 || !all_digits(body) || v < i64::MIN || v > i64::MAX {
        None
    } else {
        Some(v as i64)
    }
}

proof fn lemma_digits_value_nonneg(s: Seq<char>)
    requires
        all_digits(s),
    ensures
        digits_value(s) >= 0,
    decreases s.len(),
{
    if s.len() > 0 {
        assert(all_digits(s.drop_last()));
        lemma_digits_value_nonneg(s.drop_last());
    }
}

/// Parses a decimal `i64` the way `str::parse::<i64>` does.
pub fn parse_i64_exec(s: &str) -> (r: Option<i64>)
    ensures
        r == parse_i64(s@),
{
    let cs = chars_of(s);
    let n = cs.len();
    let mut start: usize = 0;
    let mut neg = false;
    if n > 0 && (cs[0] == '-' || cs[0] == '+') {
        neg = cs[0] == '-';
        start = 1;
    }
    let ghost body = if s@.len() > 0 && (s@[0] == '-' || s@[0] == '+') { s@.drop_first() } else { s@ };
    assert(body =~= s@.subrange(start as int, n as int));
    if start == n {
        return None;
    }
    let limit: i128 = 9223372036854775808;
    let mut acc: i128 = 0;
    let mut over = false;
    let mut i: usize = start;
    while i < n
        invariant
            cs@ == s@,
            n == cs@.len(),
            start <= i <= n,
            body == s@.subrange(start as int, n as int),
            body == (if s@.len() > 0 && (s@[0] == '-' || s@[0] == '+') { s@.drop_first() } else { s@ }),
            neg == (s@.len() > 0 && s@[0] == '-'),
            all_digits(body.take(i - start)),
            !over ==> acc == digits_value(body.take(i - start)) && acc <= limit,
            over ==> digits_value(body.take(i - start)) > limit,
            limit == 9223372036854775808i128,
        decreases n - i,
    {
        let c = cs[i];
        let ghost t = body.take(i - start + 1);
        proof {
            assert(t.drop_last() =~= body.take(i - start));
            assert(t.last() == c);
        }
        if !('0' <= c && c <= '9') {
            proof {
                assert(body[i - start] == c);
                assert(i - start < body.len());
                assert(!all_digits(body));
            }
            return None;
        }
        proof {
            assert(all_digits(t));
            lemma_digits_value_nonneg(body.take(i - start));
        }
        if !over {
            let d: i128 = (c as u32 - '0' as u32) as i128;
            acc = acc * 10 + d;
            if acc > limit {
                over = true;
            }
        }
        i = i + 1;
    }
    proof {
        assert(body.take(n - start) =~= body);
        lemma_digits_value_nonneg(body);
    }
    if over {
        return None;
    }
    if neg {
        let v: i128 = -acc;
        Some(v as i64)
    } else {
        if acc > 9223372036854775807 {
            return None;
        }
        Some(acc as i64)
    }
}

impl Arena {
    /// The id of a string in the intern table, adding it when new.
    pub fn intern_string(&mut self, s: &str) -> (r: usize)
        ensures
            r < final(self).interned@.len(),
            final(self).interned@[r as int]@ == s@,
            old(self).interned@.len() <= final(self).interned@.len() <= old(self).interned@.len() + 1,
            forall|i: int| 0 <= i < old(self).interned@.len() ==> final(self).interned@[i] == old(self).interned@[i],
            forall|i: int| 0 <= i < r ==> old(self).interned@[i]@ != s@,
            final(self).strings == old(self).strings,
            final(self).arrays == old(self).arrays,
            final(self).objects == old(self).objects,
            final(self).closures == old(self).closures,
    {
        let mut i: usize = 0;
        while i < self.interned.len()
            invariant
                i <= self.interned@.len(),
                self.interned == old(self).interned,
                forall|j: int| 0 <= j < i ==> self.interned@[j]@ != s@,
            decreases self.interned@.len() - i,
        {
            if str_equal(self.interned[i].as_str(), s) {
                return i;
            }
            i = i + 1;
        }
        self.interned.push(s.to_owned());
        i
    }
}

/// Whether a value is true under PHP's boolean conversion as the engine
/// does it: `false`, `0`, `null`, the empty array, `""` and `"0"` are false,
/// everything else true.
pub open spec fn truthy(a: &Arena, v: PhpValue) -> bool {
    match v {
        PhpValue::Bool(b) => b,
        PhpValue::Int(i) => i != 0,
        PhpValue::Null => false,
        PhpValue::Array(h) => a.arrays@[h as int].elements@.len() > 0,
        PhpValue::Str(h) => a.strings@[h as int]@.len() > 0 && a.strings@[h as int]@ != seq!['0'],
        _ => true,
    }
}

/// Whether the handle a string or array value holds points into the arena.
pub open spec fn data_handle_ok(a: &Arena, v: PhpValue) -> bool {
    match v {
        PhpValue::Str(h) => h < a.strings@.len(),
        PhpValue::Array(h) => h < a.arrays@.len(),
        _ => true,
    }
}

/// PHP's boolean conversion of a value.
pub fn is_truthy(val: &PhpValue, arena: &Arena) -> (r: bool)
    requires
        data_handle_ok(arena, *val),
    ensures
        r == truthy(arena, *val),
{
    match *val {
        PhpValue::Bool(b) => b,
        PhpValue::Int(i) => i != 0,
        PhpValue::Null => false,
        PhpValue::Array(h) => arena.arrays[h].elements.len() > 0,
        PhpValue::Str(h) => {
            let s = arena.strings[h].as_str();
            proof {
                reveal_strlit("0");
                assert("0"@ =~= seq!['0']);
            }
            !s.is_empty() && !str_equal(s, "0")
        },
        _ => true,
    }
}

/// The array key a subscript value selects, as `ArraySet` computes it:
/// a string that parses as an `i64` is that integer, another string its
/// interned id; an integer or a boolean its integer value; anything else 0.
pub open spec fn array_key_of(a: &Arena, key: PhpValue, interned_id: usize) -> ArrayKey {
    match key {
        PhpValue::Str(h) => match parse_i64(a.strings@[h as int]@) {
            Some(i) => ArrayKey::Int(i),
            None => ArrayKey::StringId(interned_id),
        },
        PhpValue::Int(i) => ArrayKey::Int(i as i64),
        PhpValue::Bool(b) => ArrayKey::Int(if b { 1 } else { 0 }),
        _ => ArrayKey::Int(0),
    }
}

/// Converts a subscript value to an array key, interning a non-numeric
/// string key.
pub fn value_to_array_key(key: PhpValue, arena: &mut Arena) -> (r: ArrayKey)
    requires
        data_handle_ok(old(arena), key),
    ensures
        match r {
            ArrayKey::StringId(id) => key is Str && id < final(arena).interned@.len()
                && final(arena).interned@[id as int]@ == final(arena).strings@[key->Str_0 as int]@
                && r == array_key_of(old(arena), key, id),
            ArrayKey::Int(_) => r == array_key_of(old(arena), key, 0),
        },
        final(arena).strings == old(arena).strings,
        final(arena).arrays == old(arena).arrays,
        final(arena).objects == old(arena).objects,
        final(arena).closures == old(arena).closures,
        r is Int ==> *final(arena) == *old(arena),
{
    match key {
        PhpValue::Str(h) => {
            let parsed = parse_i64_exec(arena.strings[h].as_str());
            match parsed {
                Some(i) => ArrayKey::Int(i),
                None => {
                    let s = arena.strings[h].clone();
                    let id = arena.intern_string(s.as_str());
                    ArrayKey::StringId(id)
                },
            }
        },
        PhpValue::Int(i) => ArrayKey::Int(i as i64),
        PhpValue::Bool(b) => ArrayKey::Int(if b { 1 } else { 0 }),
        _ => ArrayKey::Int(0),
    }
}

/// An array as plain values: elements and next free integer key.
pub type ArrayView = (Seq<(ArrayKey, PhpValue)>, i64);

/// The position of `key` among the elements, if present.
pub open spec fn key_position(els: Seq<(ArrayKey, PhpValue)>, key: ArrayKey) -> Option<int>
    decreases els.len(),
{
    if els.len() == 0 {
        None
    } else {
        match key_position(els.drop_last(), key) {
            Some(i) => Some(i),
            None => if els.last().0 == key { Some(els.len() - 1) } else { None },
        }
    }
}

proof fn lemma_key_position_first(els: Seq<(ArrayKey, PhpValue)>, key: ArrayKey, i: int)
    requires
        0 <= i < els.len(),
        els[i].0 == key,
        forall|j: int| 0 <= j < i ==> els[j].0 != key,
    ensures
        key_position(els, key) == Some(i),
    decreases els.len(),
{
    if i < els.len() - 1 {
        lemma_key_position_first(els.drop_last(), key, i);
    } else {
        lemma_key_position_absent(els.drop_last(), key);
    }
}

proof fn lemma_key_position_absent(els: Seq<(ArrayKey, PhpValue)>, key: ArrayKey)
    requires
        forall|j: int| 0 <= j < els.len() ==> els[j].0 != key,
    ensures
        key_position(els, key) is None,
    decreases els.len(),
{
    if els.len() > 0 {
        lemma_key_position_absent(els.drop_last(), key);
    }
}

/// The value an array holds under a key.
pub open spec fn array_get(a: ArrayView, key: ArrayKey) -> Option<PhpValue> {
    match key_position(a.0, key) {
        Some(i) => Some(a.0[i].1),
        None => None,
    }
}

/// The array after storing `v` under `key`: an existing element keeps its
/// place and takes the new value, a new one goes at the end; an integer
/// key at or past the next free key moves it one past that key.
pub open spec fn array_insert(a: ArrayView, key: ArrayKey, v: PhpValue) -> ArrayView {
    let els = match key_position(a.0, key) {
        Some(i) => a.0.update(i, (key, v)),
        None => a.0.push((key, v)),
    };
    let nf = match key {
        ArrayKey::Int(k) => if k >= a.1 && k < i64::MAX { (k + 1) as i64 } else if k >= a.1 { k } else { a.1 },
        _ => a.1,
    };
    (els, nf)
}

impl PhpArray {
    /// The value stored under `key` (see [`array_get`]).
    pub fn get(&self, key: ArrayKey) -> (r: Option<PhpValue>)
        ensures
            r == array_get(self.view(), key),
    {
        let n = self.elements.len();
        let mut i: usize = 0;
        while i < n
            invariant
                n == self.elements@.len(),
                i <= n,
                forall|j: int| 0 <= j < i ==> self.elements@[j].0 != key,
            decreases n - i,
        {
            if self.elements[i].0 == key {
                proof {
                    lemma_key_position_first(self.elements@, key, i as int);
                }
                return Some(self.elements[i].1);
            }
            i = i + 1;
        }
        proof {
            lemma_key_position_absent(self.elements@, key);
        }
        None
    }
    /// The array as plain values.
    pub open spec fn view(&self) -> ArrayView {
        (self.elements@, self.next_free)
    }

    /// An empty array.
    pub fn new() -> (r: Self)
        ensures
            r.view() == (Seq::<(ArrayKey, PhpValue)>::empty(), 0i64),
    {
        PhpArray { elements: Vec::new(), next_free: 0 }
    }

    /// The key the next appended element gets.
    pub fn next_free_int_key(&self) -> (r: i64)
        ensures
            r == self.next_free,
    {
        self.next_free
    }

    /// Stores `v` under `key` (see [`array_insert`]).
    pub fn insert(&mut self, key: ArrayKey, v: PhpValue)
        ensures
            final(self).view() == array_insert(old(self).view(), key, v),
    {
        let mut i: usize = 0;
        let n = self.elements.len();
        while i < n
            invariant
                n == self.elements@.len(),
                self.elements == old(self).elements,
                self.next_free == old(self).next_free,
                i <= n,
                key_position(self.elements@.take(i as int), key) is None,
            decreases n - i,
        {
            proof {
                assert(self.elements@.take(i as int + 1).drop_last() =~= self.elements@.take(i as int));
            }
            if self.elements[i].0 == key {
                proof {
                    lemma_key_position_prefix(self.elements@, i as int + 1, key);
                }
                self.elements.set(i, (key, v));
                self.bump(key);
                return;
            }
            i = i + 1;
        }
        proof {
            assert(self.elements@.take(n as int) =~= self.elements@);
        }
        self.elements.push((key, v));
        self.bump(key);
    }

    fn bump(&mut self, key: ArrayKey)
        ensures
            final(self).elements == old(self).elements,
            final(self).next_free == match key {
                ArrayKey::Int(k) => if k >= old(self).next_free && k < i64::MAX { (k + 1) as i64 } else if k >= old(self).next_free { k } else { old(self).next_free },
                _ => old(self).next_free,
            },
    {
        match key {
            ArrayKey::Int(k) => {
                if k >= self.next_free {
                    if k < i64::MAX {
                        self.next_free = k + 1;
                    } else {
                        self.next_free = k;
                    }
                }
            },
            _ => {},
        }
    }
}

proof fn lemma_key_position_prefix(els: Seq<(ArrayKey, PhpValue)>, n: int, key: ArrayKey)
    requires
        0 < n <= els.len(),
        key_position(els.take(n - 1), key) is None,
        els[n - 1].0 == key,
    ensures
        key_position(els, key) == Some(n - 1),
    decreases els.len() - n,
{
    assert(els.take(n).drop_last() =~= els.take(n - 1));
    if n < els.len() {
        lemma_key_position_prefix_ext(els, n, key, n - 1);
    } else {
        assert(els.take(n) =~= els);
    }
}

proof fn lemma_key_position_prefix_ext(els: Seq<(ArrayKey, PhpValue)>, n: int, key: ArrayKey, p: int)
    requires
        0 < n <= els.len(),
        key_position(els.take(n), key) == Some(p),
    ensures
        key_position(els, key) == Some(p),
    decreases els.len() - n,
{
    if n < els.len() {
        assert(els.take(n + 1).drop_last() =~= els.take(n));
        lemma_key_position_prefix_ext(els, n + 1, key, p);
    } else {
        assert(els.take(n) =~= els);
    }
}

} // verus!
