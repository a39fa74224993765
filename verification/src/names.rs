use vstd::prelude::*;
use vstd::utf8::{encode_utf8, encode_scalar, has_width_1_encoding, has_width_2_encoding, has_width_3_encoding, leading_byte_width_1, leading_byte_width_2, leading_byte_width_3, leading_byte_width_4, last_continuation_byte, second_last_continuation_byte, third_last_continuation_byte};

verus! {

/// The ASCII lower-case form of a character; every other character is kept.
pub open spec fn ascii_lower_char(c: char) -> char {
    if 'A' <= c && c <= 'Z' {
        ((c as u32) + 32) as char
    } else {
        c
    }
}

/// The ASCII lower-case form of a string, character by character.
pub open spec fn ascii_lower(s: Seq<char>) -> Seq<char> {
    s.map_values(|c: char| ascii_lower_char(c))
}

/// A name as the engine keys it: without one leading `\`, lower-cased in ASCII.
pub open spec fn normalized(s: Seq<char>) -> Seq<char> {
    if s.len() > 0 && s[0] == '\\' {
        ascii_lower(s.drop_first())
    } else {
        ascii_lower(s)
    }
}

/// Appends one character to a string.
#[verifier::external_body]
pub(crate) fn push_char(s: &mut String, c: char)
    ensures
        final(s)@ == old(s)@.push(c),
{
    s.push(c);
}

pub fn lower_char(c: char) -> (r: char)
    ensures
        r == ascii_lower_char(c),
{
    if 'A' <= c && c <= 'Z' {
        let u: u32 = c as u32;
        let l: u8 = (u + 32) as u8;
        l as char
    } else {
        c
    }
}

/// Strips one leading `\` and lower-cases the ASCII letters of a class or
/// function name.
pub fn normalize_name(name: &str) -> (r: String)
    ensures
        r@ == normalized(name@),
{
    let mut out = String::new();
    let mut first = true;
    for c in it: name.chars()
        invariant
            it.seq() == name@,
            first == (it.index() == 0),
            out@ == normalized(name@.take(it.index() as int)),
    {
        let ghost i = it.index() as int;
        proof {
            assert(name@.take(i + 1) =~= name@.take(i).push(c));
            assert(ascii_lower(name@.take(i).push(c)) =~= ascii_lower(name@.take(i)).push(ascii_lower_char(c)));
            if i > 0 {
                assert(name@.take(i + 1).drop_first() =~= name@.take(i).drop_first().push(c));
                assert(ascii_lower(name@.take(i).drop_first().push(c)) =~= ascii_lower(name@.take(i).drop_first()).push(ascii_lower_char(c)));
            } else {
                assert(name@.take(1).drop_first() =~= Seq::<char>::empty());
                assert(ascii_lower(Seq::<char>::empty()) =~= Seq::<char>::empty());
            }
        }
        if !(first && c == '\\') {
            push_char(&mut out, lower_char(c));
        }
        first = false;
    }
    proof { assert(name@.take(name@.len() as int) =~= name@); }
    out
}

/// The ASCII lower-case form of a string.
pub fn to_ascii_lowercase(s: &str) -> (r: String)
    ensures
        r@ == ascii_lower(s@),
{
    let mut out = String::new();
    for c in it: s.chars()
        invariant
            it.seq() == s@,
            out@ == ascii_lower(s@.take(it.index() as int)),
    {
        proof {
            let i = it.index() as int;
            assert(s@.take(i + 1) =~= s@.take(i).push(c));
            assert(ascii_lower(s@.take(i).push(c)) =~= ascii_lower(s@.take(i)).push(ascii_lower_char(c)));
        }
        push_char(&mut out, lower_char(c));
    }
    proof {
        assert(s@.take(s@.len() as int) =~= s@);
    }
    out
}

/// The characters of a string, one by one.
pub fn chars_of(s: &str) -> (r: Vec<char>)
    ensures
        r@ == s@,
{
    let mut out: Vec<char> = Vec::new();
    for c in it: s.chars()
        invariant
            it.seq() == s@,
            out@ == s@.take(it.index() as int),
    {
        proof {
            assert(s@.take(it.index() as int + 1) =~= s@.take(it.index() as int).push(c));
        }
        out.push(c);
    }
    proof {
        assert(s@.take(s@.len() as int) =~= s@);
    }
    out
}

/// Whether two strings are equal once their ASCII letters are lower-cased.
pub fn eq_ignore_ascii_case(a: &str, b: &str) -> (r: bool)
    ensures
        r == (ascii_lower(a@) == ascii_lower(b@)),
{
    let ac = chars_of(a);
    let bc = chars_of(b);
    if ac.len() != bc.len() {
        proof {
            assert(ascii_lower(a@).len() != ascii_lower(b@).len());
        }
        return false;
    }
    let mut i: usize = 0;
    while i < ac.len()
        invariant
            ac@ == a@,
            bc@ == b@,
            ac@.len() == bc@.len(),
            i <= ac@.len(),
            forall|j: int| 0 <= j < i ==> ascii_lower_char(#[trigger] a@[j]) == ascii_lower_char(b@[j]),
        decreases ac@.len() - i,
    {
        if lower_char(ac[i]) != lower_char(bc[i]) {
            proof {
                assert(ascii_lower(a@)[i as int] != ascii_lower(b@)[i as int]);
            }
            return false;
        }
        i = i + 1;
    }
    proof {
        assert(ascii_lower(a@) =~= ascii_lower(b@));
    }
    true
}

/// Whether two strings hold the same characters.
pub fn str_equal(a: &str, b: &str) -> (r: bool)
    ensures
        r == (a@ == b@),
{
    let ac = chars_of(a);
    let bc = chars_of(b);
    if ac.len() != bc.len() {
        return false;
    }
    let mut i: usize = 0;
    while i < ac.len()
        invariant
            ac@ == a@,
            bc@ == b@,
            ac@.len() == bc@.len(),
            i <= ac@.len(),
            forall|j: int| 0 <= j < i ==> #[trigger] a@[j] == b@[j],
        decreases ac@.len() - i,
    {
        if ac[i] != bc[i] {
            return false;
        }
        i = i + 1;
    }
    proof {
        assert(a@ =~= b@);
    }
    true
}

/// The ASCII lower-case form of a byte.
pub open spec fn lower_byte(b: u8) -> u8 {
    if 65 <= b && b <= 90 {
        (b + 32) as u8
    } else {
        b
    }
}

/// FNV-1a over the ASCII-lower-cased bytes.
pub open spec fn fnv1a_lower(bytes: Seq<u8>) -> u64
    decreases bytes.len(),
{
    if bytes.len() == 0 {
        0xcbf29ce484222325u64
    } else {
        vstd::wrapping::u64_specs::wrapping_mul(
            fnv1a_lower(bytes.drop_last()) ^ (lower_byte(bytes.last()) as u64),
            0x100000001b3u64,
        )
    }
}

/// The hash under which the method caches file a method name: FNV-1a over
/// the UTF-8 bytes of the name, each lower-cased in ASCII.
pub open spec fn method_name_hash(name: Seq<char>) -> u64 {
    fnv1a_lower(encode_utf8(name))
}

/// Hashes a method name case-insensitively (ASCII) with 64-bit FNV-1a.
pub fn hash_method_name(name: &str) -> (r: u64)
    ensures
        r == method_name_hash(name@),
{
    let bytes = name.as_bytes();
    let mut h: u64 = 0xcbf29ce484222325;
    let mut i: usize = 0;
    while i < bytes.len()
        invariant
            bytes@ == encode_utf8(name@),
            i <= bytes@.len(),
            h == fnv1a_lower(bytes@.take(i as int)),
        decreases bytes@.len() - i,
    {
        let b = bytes[i];
        let lb: u8 = if b >= 65 && b <= 90 { b + 32 } else { b };
        proof {
            assert(bytes@.take(i as int + 1).drop_last() =~= bytes@.take(i as int));
        }
        h = (h ^ (lb as u64)).wrapping_mul(0x100000001b3);
        i = i + 1;
    }
    proof {
        assert(bytes@.take(bytes@.len() as int) =~= bytes@);
    }
    h
}

/// The ASCII lower-case form of every byte.
pub open spec fn lower_bytes(b: Seq<u8>) -> Seq<u8> {
    b.map_values(|x: u8| lower_byte(x))
}

proof fn lemma_lower_scalar(c: char)
    ensures
        lower_bytes(encode_scalar(c as u32)) == encode_scalar(ascii_lower_char(c) as u32),
{
    let v = c as u32;
    if has_width_1_encoding(v) {
        let b = leading_byte_width_1(v);
        assert(b == v as u8) by (bit_vector)
            requires b == (v & 0x7F) as u8, v <= 0x7F;
        if 'A' <= c && c <= 'Z' {
            let w = ascii_lower_char(c) as u32;
            assert(w == v + 32);
            assert(leading_byte_width_1(w) == (v + 32) as u8) by (bit_vector)
                requires w == v + 32, 65 <= v <= 90;
        }
        assert(lower_bytes(encode_scalar(v)) =~= encode_scalar(ascii_lower_char(c) as u32));
    } else {
        assert(ascii_lower_char(c) == c);
        assert(leading_byte_width_2(v) >= 0x80) by (bit_vector);
        assert(leading_byte_width_3(v) >= 0x80) by (bit_vector);
        assert(leading_byte_width_4(v) >= 0x80) by (bit_vector);
        assert(last_continuation_byte(v) >= 0x80) by (bit_vector);
        assert(second_last_continuation_byte(v) >= 0x80) by (bit_vector);
        assert(third_last_continuation_byte(v) >= 0x80) by (bit_vector);
        assert(lower_bytes(encode_scalar(v)) =~= encode_scalar(v));
    }
}

proof fn lemma_lower_encode(s: Seq<char>)
    ensures
        lower_bytes(encode_utf8(s)) == encode_utf8(ascii_lower(s)),
    decreases s.len(),
{
    if s.len() > 0 {
        lemma_lower_encode(s.drop_first());
        lemma_lower_scalar(s[0]);
        assert(ascii_lower(s).drop_first() =~= ascii_lower(s.drop_first()));
        assert(lower_bytes(encode_utf8(s)) =~= lower_bytes(encode_scalar(s[0] as u32)) + lower_bytes(
            encode_utf8(s.drop_first()),
        ));
    } else {
        assert(lower_bytes(encode_utf8(s)) =~= encode_utf8(ascii_lower(s)));
    }
}

proof fn lemma_fnv_of_lowered(b: Seq<u8>)
    ensures
        fnv1a_lower(b) == fnv1a_lower(lower_bytes(b)),
    decreases b.len(),
{
    if b.len() > 0 {
        lemma_fnv_of_lowered(b.drop_last());
        assert(lower_bytes(b).drop_last() =~= lower_bytes(b.drop_last()));
        assert(lower_byte(lower_byte(b.last())) == lower_byte(b.last()));
    }
}

/// Method names that differ only in ASCII case hash alike.
pub proof fn hash_method_name_ignores_ascii_case(a: Seq<char>, b: Seq<char>)
    requires
        ascii_lower(a) == ascii_lower(b),
    ensures
        method_name_hash(a) == method_name_hash(b),
{
    lemma_lower_encode(a);
    lemma_lower_encode(b);
    lemma_fnv_of_lowered(encode_utf8(a));
    lemma_fnv_of_lowered(encode_utf8(b));
}

/// Normalizing a name that has no leading `\` twice gives what normalizing
/// it once gives.
pub proof fn normalize_name_is_idempotent(s: Seq<char>)
    requires
        !(normalized(s).len() > 0 && normalized(s)[0] == '\\'),
    ensures
        normalized(normalized(s)) == normalized(s),
{
    let n = normalized(s);
    assert(ascii_lower(n) =~= n);
}

} // verus!
