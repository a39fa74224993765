use vstd::prelude::*;
use crate::http::{HttpResponse, unicode_uppercase, to_uppercase, decimal, push_decimal};
use crate::server::before_query;
use crate::names::str_equal;
use crate::names::{ascii_lower, chars_of, eq_ignore_ascii_case, push_char};
use crate::server::{contains_seq, str_contains, utf8_lossy, from_utf8_lossy, first_blank_line_from, find_request_end};

verus! {

/// Whether a path names a WordPress file: it contains `wp-admin`,
/// `wp-includes`, `wp-login` or `wp-`.
pub open spec fn path_marks_wordpress(path: Seq<char>) -> bool {
    contains_seq(path, "wp-admin"@) || contains_seq(path, "wp-includes"@) || contains_seq(path, "wp-login"@)
        || contains_seq(path, "wp-"@)
}

/// Whether a script path marks a WordPress file (see
/// [`path_marks_wordpress`]).
pub fn file_path_marks_wordpress(path: &str) -> (r: bool)
    ensures
        r == path_marks_wordpress(path@),
{
    str_contains(path, "wp-admin") || str_contains(path, "wp-includes") || str_contains(path, "wp-login")
        || str_contains(path, "wp-")
}

/// The markers of PHP 8.4-only syntax, extensions and frameworks the
/// Hyperion VM leaves to the Zend engine.
pub open spec fn php84_markers() -> Seq<Seq<char>> {
    seq![
        "get =>"@, "set =>"@, "get {"@, "set {"@, "(set)"@, "HTMLDocument"@, "Dom\\"@, "array_find"@,
        "array_find_key"@, "array_any"@, "array_all"@, "mb_trim"@, "mb_ltrim"@, "mb_rtrim"@, "mb_ucfirst"@,
        "mb_lcfirst"@, "#[Deprecated"@, "#[\\Deprecated"@, "Pdo\\"@, "Pdo\\Mysql"@, "Pdo\\Sqlite"@,
        "Pdo\\Pgsql"@, "mysqli"@, "wp-load.php"@, "wp-config.php"@, "wp-blog-header.php"@, "ABSPATH"@,
    ]
}

/// Whether a script's source needs the Zend engine: it contains one of the
/// markers, or both `new ` and `)->` (member access on `new` without
/// parentheses).
pub open spec fn source_requires_php84(content: Seq<char>) -> bool {
    (exists|i: int| 0 <= i < php84_markers().len() && contains_seq(content, #[trigger] php84_markers()[i]))
        || (contains_seq(content, "new "@) && contains_seq(content, ")->"@))
}

/// Whether a script's source needs the Zend engine (see
/// [`source_requires_php84`]).
pub fn content_requires_php84(content: &str) -> (r: bool)
    ensures
        r == source_requires_php84(content@),
{
    let markers: [&str; 27] = [
        "get =>", "set =>", "get {", "set {", "(set)", "HTMLDocument", "Dom\\", "array_find",
        "array_find_key", "array_any", "array_all", "mb_trim", "mb_ltrim", "mb_rtrim", "mb_ucfirst",
        "mb_lcfirst", "#[Deprecated", "#[\\Deprecated", "Pdo\\", "Pdo\\Mysql", "Pdo\\Sqlite",
        "Pdo\\Pgsql", "mysqli", "wp-load.php", "wp-config.php", "wp-blog-header.php", "ABSPATH",
    ];
    let ghost ms = php84_markers();
    assert(markers@.len() == 27);
    assert(forall|i: int| 0 <= i < 27 ==> #[trigger] markers@[i]@ == ms[i]);
    let mut i: usize = 0;
    while i < 27
        invariant
            i <= 27,
            ms == php84_markers(),
            ms.len() == 27,
            forall|j: int| 0 <= j < 27 ==> #[trigger] markers@[j]@ == ms[j],
            forall|j: int| 0 <= j < i ==> !contains_seq(content@, #[trigger] ms[j]),
        decreases 27 - i,
    {
        if str_contains(content, markers[i]) {
            return true;
        }
        i = i + 1;
    }
    str_contains(content, "new ") && str_contains(content, ")->")
}

/// Whether `c` is white space in Unicode (`char::is_whitespace`).
pub open spec fn is_space(c: char) -> bool {
    ('\t' <= c && c <= '\r') || c == ' ' || c == '\u{85}' || c == '\u{a0}' || c == '\u{1680}' || ('\u{2000}' <= c
        && c <= '\u{200a}') || c == '\u{2028}' || c == '\u{2029}' || c == '\u{202f}' || c == '\u{205f}' || c
        == '\u{3000}'
}

fn is_space_exec(c: char) -> (r: bool)
    ensures
        r == is_space(c),
{
    ('\t' <= c && c <= '\r') || c == ' ' || c == '\u{85}' || c == '\u{a0}' || c == '\u{1680}' || ('\u{2000}' <= c
        && c <= '\u{200a}') || c == '\u{2028}' || c == '\u{2029}' || c == '\u{202f}' || c == '\u{205f}' || c
        == '\u{3000}'
}

/// Number of white-space characters at the start of `s`.
pub open spec fn leading_space(s: Seq<char>) -> nat
    decreases s.len(),
{
    if s.len() > 0 && is_space(s[0]) {
        1 + leading_space(s.drop_first())
    } else {
        0
    }
}

/// Number of white-space characters at the end of `s`.
pub open spec fn trailing_space(s: Seq<char>) -> nat
    decreases s.len(),
{
    if s.len() > 0 && is_space(s.last()) {
        1 + trailing_space(s.drop_last())
    } else {
        0
    }
}

/// `s` without leading and trailing white space (`str::trim`).
pub open spec fn trimmed(s: Seq<char>) -> Seq<char> {
    let a = leading_space(s);
    if a >= s.len() {
        seq![]
    } else {
        s.subrange(a as int, s.len() - trailing_space(s))
    }
}

proof fn lemma_leading_space(s: Seq<char>, i: int)
    requires
        0 <= i <= s.len(),
        forall|j: int| 0 <= j < i ==> is_space(#[trigger] s[j]),
        i == s.len() || !is_space(s[i]),
    ensures
        leading_space(s) == i,
    decreases i,
{
    if i > 0 {
        assert forall|j: int| 0 <= j < i - 1 implies is_space(#[trigger] s.drop_first()[j]) by {
            assert(s.drop_first()[j] == s[j + 1]);
        }
        if i - 1 < s.drop_first().len() {
            assert(s.drop_first()[i - 1] == s[i]);
        }
        lemma_leading_space(s.drop_first(), i - 1);
    }
}

proof fn lemma_trailing_space(s: Seq<char>, k: int)
    requires
        0 <= k <= s.len(),
        forall|j: int| s.len() - k <= j < s.len() ==> is_space(#[trigger] s[j]),
        k == s.len() || !is_space(s[s.len() - k - 1]),
    ensures
        trailing_space(s) == k,
    decreases k,
{
    if k > 0 {
        assert forall|j: int| s.drop_last().len() - (k - 1) <= j < s.drop_last().len() implies is_space(
            #[trigger] s.drop_last()[j],
        ) by {
            assert(s.drop_last()[j] == s[j]);
        }
        if k - 1 < s.drop_last().len() {
            assert(s.drop_last()[s.drop_last().len() - (k - 1) - 1] == s[s.len() - k - 1]);
        }
        lemma_trailing_space(s.drop_last(), k - 1);
    }
}

/// The characters `cs[start..end]` without surrounding white space.
fn trim_range(cs: &Vec<char>, start: usize, end: usize) -> (r: String)
    requires
        start <= end <= cs@.len(),
    ensures
        r@ == trimmed(cs@.subrange(start as int, end as int)),
{
    let ghost s = cs@.subrange(start as int, end as int);
    let mut a: usize = start;
    while a < end && is_space_exec(cs[a])
        invariant
            start <= a <= end <= cs@.len(),
            s == cs@.subrange(start as int, end as int),
            forall|j: int| 0 <= j < a - start ==> is_space(#[trigger] s[j]),
        decreases end - a,
    {
        a = a + 1;
    }
    proof {
        lemma_leading_space(s, a - start);
    }
    if a == end {
        return String::new();
    }
    let mut b: usize = end;
    while b > a && is_space_exec(cs[b - 1])
        invariant
            start <= a < end,
            a <= b <= end <= cs@.len(),
            s == cs@.subrange(start as int, end as int),
            forall|j: int| b - start <= j < s.len() ==> is_space(#[trigger] s[j]),
        decreases b,
    {
        b = b - 1;
    }
    proof {
        assert(!is_space(s[a - start]));
        lemma_trailing_space(s, (end - b) as int);
    }
    let mut out = String::new();
    let mut k: usize = a;
    while k < b
        invariant
            a <= k <= b <= end <= cs@.len(),
            out@ == cs@.subrange(a as int, k as int),
        decreases b - k,
    {
        push_char(&mut out, cs[k]);
        proof {
            assert(out@ =~= cs@.subrange(a as int, k as int + 1));
        }
        k = k + 1;
    }
    proof {
        assert(out@ =~= trimmed(s));
    }
    out
}

/// What `str::parse::<u16>` gives: an optional `+` followed by one or more
/// ASCII digits whose value fits in a `u16`.
pub open spec fn parse_u16(s: Seq<char>) -> Option<u16> {
    let body = if s.len() > 0 && s[0] == '+' { s.drop_first() } else { s };
    if body.len() == 0 || !crate::value::all_digits(body) || crate::value::digits_value(body) > u16::MAX {
        None
    } else {
        Some(crate::value::digits_value(body) as u16)
    }
}

proof fn lemma_digits_value_monotone(s: Seq<char>, n: int)
    requires
        crate::value::all_digits(s),
        0 <= n <= s.len(),
    ensures
        crate::value::digits_value(s.take(n)) <= crate::value::digits_value(s),
    decreases s.len() - n,
{
    if n < s.len() {
        assert(crate::value::all_digits(s.take(n + 1)));
        assert(s.take(n + 1).drop_last() =~= s.take(n));
        lemma_digits_nonneg(s.take(n));
        lemma_digits_value_monotone(s, n + 1);
    } else {
        assert(s.take(n) =~= s);
    }
}

proof fn lemma_digits_nonneg(s: Seq<char>)
    requires
        crate::value::all_digits(s),
    ensures
        crate::value::digits_value(s) >= 0,
    decreases s.len(),
{
    if s.len() > 0 {
        assert(crate::value::all_digits(s.drop_last()));
        lemma_digits_nonneg(s.drop_last());
    }
}

/// Parses `cs[start..end]` as a `u16` the way `str::parse::<u16>` does.
fn parse_u16_range(cs: &Vec<char>, start: usize, end: usize) -> (r: Option<u16>)
    requires
        start <= end <= cs@.len(),
    ensures
        r == parse_u16(cs@.subrange(start as int, end as int)),
{
    let ghost s = cs@.subrange(start as int, end as int);
    let mut i = start;
    if i < end && cs[i] == '+' {
        i = i + 1;
    }
    let ghost body = if s.len() > 0 && s[0] == '+' { s.drop_first() } else { s };
    assert(body =~= cs@.subrange(i as int, end as int));
    if i == end {
        return None;
    }
    let b0 = i;
    let mut acc: u32 = 0;
    while i < end
        invariant
            b0 <= i <= end <= cs@.len(),
            start <= b0,
            body == cs@.subrange(b0 as int, end as int),
            s == cs@.subrange(start as int, end as int),
            body == (if s.len() > 0 && s[0] == '+' { s.drop_first() } else { s }),
            body.len() > 0,
            crate::value::all_digits(body.take(i - b0)),
            acc == crate::value::digits_value(body.take(i - b0)),
            acc <= 65535,
        decreases end - i,
    {
        let c = cs[i];
        let ghost t = body.take(i - b0 + 1);
        proof {
            assert(t.drop_last() =~= body.take(i - b0));
            assert(t.last() == c);
        }
        if !('0' <= c && c <= '9') {
            proof {
                assert(body[i - b0] == c);
                assert(!crate::value::all_digits(body));
            }
            return None;
        }
        let d: u32 = (c as u32) - ('0' as u32);
        let next: u32 = acc * 10 + d;
        proof {
            assert(crate::value::all_digits(t));
        }
        if next > 65535 {
            proof {
                if crate::value::all_digits(body) {
                    lemma_digits_value_monotone(body, i - b0 + 1);
                }
            }
            return None;
        }
        acc = next;
        i = i + 1;
    }
    proof {
        assert(body.take(end - b0) =~= body);
    }
    Some(acc as u16)
}

/// The first index at `i` or later where `s` holds `c`.
pub open spec fn index_of_from(s: Seq<char>, c: char, i: int) -> Option<int>
    decreases s.len() - i,
{
    if i < 0 || i >= s.len() {
        None
    } else if s[i] == c {
        Some(i)
    } else {
        index_of_from(s, c, i + 1)
    }
}

/// The CGI status, reason phrase and headers so far, as header lines are
/// read.
pub type CgiHead = (u16, Seq<char>, Seq<(Seq<char>, Seq<char>)>);

/// One header line of CGI output applied to what was read before it: a
/// trimmed `Name: value` line adds a header, except `Status`, which sets the
/// status code (and the reason phrase after it) when the code parses; other
/// lines are skipped.
pub open spec fn apply_header_line(st: CgiHead, line: Seq<char>) -> CgiHead {
    let t = trimmed(line);
    match index_of_from(t, ':', 0) {
        None => st,
        Some(c) => {
            let k = trimmed(t.take(c));
            let v = trimmed(t.skip(c + 1));
            if ascii_lower(k) == ascii_lower("status"@) {
                match index_of_from(v, ' ', 0) {
                    Some(sp) => match parse_u16(v.take(sp)) {
                        Some(code) => (code, trimmed(v.skip(sp + 1)), st.2),
                        None => st,
                    },
                    None => match parse_u16(v) {
                        Some(code) => (code, st.1, st.2),
                        None => st,
                    },
                }
            } else {
                (st.0, st.1, st.2.push((k, v)))
            }
        },
    }
}

/// The header lines of `s` from index `i` on applied to `st`; lines end at
/// `\n`.
pub open spec fn apply_lines_from(st: CgiHead, s: Seq<char>, i: int) -> CgiHead
    decreases s.len() - i,
{
    if i < 0 || i > s.len() {
        st
    } else {
        match index_of_from(s, '\n', i) {
            None => apply_header_line(st, s.subrange(i, s.len() as int)),
            Some(e) => {
                proof {
                    lemma_index_of_from_bounds(s, '\n', i);
                }
                apply_lines_from(apply_header_line(st, s.subrange(i, e)), s, e + 1)
            },
        }
    }
}

/// The first position at `i` or later where `b` holds LF LF.
pub open spec fn first_double_lf_from(b: Seq<u8>, i: int) -> Option<int>
    decreases b.len() - i,
{
    if i < 0 || i + 2 > b.len() {
        None
    } else if b[i] == 10 && b[i + 1] == 10 {
        Some(i)
    } else {
        first_double_lf_from(b, i + 1)
    }
}

/// Where CGI output splits into head and body: at the first CRLF CRLF, else
/// at the first LF LF, else there is no head.
pub open spec fn cgi_split(out: Seq<u8>) -> (Seq<u8>, Seq<u8>) {
    match first_blank_line_from(out, 0) {
        Some(p) => (out.take(p), out.skip(p + 4)),
        None => match first_double_lf_from(out, 0) {
            Some(p) => (out.take(p), out.skip(p + 2)),
            None => (seq![], out),
        },
    }
}

/// The response a CGI run gives, as status, reason, headers and body:
/// status 200 `OK` unless a `Status` header says otherwise, the other
/// headers, and the body; when the body is empty, something went to stderr
/// and the status is still 200, the response is a 500 carrying stderr as
/// plain text.
pub open spec fn cgi_result(stdout: Seq<u8>, stderr: Seq<u8>) -> (CgiHead, Seq<u8>) {
    let (head, body) = cgi_split(stdout);
    let st: CgiHead = if head.len() == 0 {
        (200u16, "OK"@, seq![])
    } else {
        apply_lines_from((200u16, "OK"@, seq![]), utf8_lossy(head), 0)
    };
    if body.len() == 0 && stderr.len() > 0 && st.0 == 200 {
        ((500u16, "Internal Server Error"@, st.2.push(("Content-Type"@, "text/plain; charset=utf-8"@))), stderr)
    } else {
        (st, body)
    }
}

/// The first index of a character, when there is one, lies where the
/// search started or later, and holds that character.
pub proof fn lemma_index_of_from_bounds(s: Seq<char>, c: char, i: int)
    ensures
        index_of_from(s, c, i) matches Some(j) ==> i <= j < s.len() && s[j] == c,
    decreases s.len() - i,
{
    if 0 <= i < s.len() && s[i] != c {
        lemma_index_of_from_bounds(s, c, i + 1);
    }
}

fn index_of(cs: &Vec<char>, c: char, from: usize, to: usize) -> (r: Option<usize>)
    requires
        from <= to <= cs@.len(),
    ensures
        match r {
            Some(i) => index_of_from(cs@.subrange(0, to as int), c, from as int) == Some(i as int),
            None => index_of_from(cs@.subrange(0, to as int), c, from as int) is None,
        },
{
    let ghost s = cs@.subrange(0, to as int);
    let mut i = from;
    while i < to
        invariant
            from <= i <= to <= cs@.len(),
            s == cs@.subrange(0, to as int),
            index_of_from(s, c, from as int) == index_of_from(s, c, i as int),
        decreases to - i,
    {
        if cs[i] == c {
            return Some(i);
        }
        i = i + 1;
    }
    None
}

pub(crate) fn string_of(cs: &Vec<char>, a: usize, b: usize) -> (r: String)
    requires
        a <= b <= cs@.len(),
    ensures
        r@ == cs@.subrange(a as int, b as int),
{
    let mut out = String::new();
    let mut k = a;
    while k < b
        invariant
            a <= k <= b <= cs@.len(),
            out@ == cs@.subrange(a as int, k as int),
        decreases b - k,
    {
        push_char(&mut out, cs[k]);
        proof {
            assert(out@ =~= cs@.subrange(a as int, k as int + 1));
        }
        k = k + 1;
    }
    out
}

/// Header pairs as plain values.
pub open spec fn pairs_view(h: Seq<(String, String)>) -> Seq<(Seq<char>, Seq<char>)> {
    h.map_values(|e: (String, String)| (e.0@, e.1@))
}

fn apply_line(code: &mut u16, text: &mut String, headers: &mut Vec<(String, String)>, cs: &Vec<char>, a: usize, b: usize)
    requires
        a <= b <= cs@.len(),
    ensures
        (*final(code), final(text)@, pairs_view(final(headers)@)) == apply_header_line(
            (*old(code), old(text)@, pairs_view(old(headers)@)),
            cs@.subrange(a as int, b as int),
        ),
{
    let t = trim_range(cs, a, b);
    let tc = chars_of(t.as_str());
    let n = tc.len();
    proof {
        assert(tc@.subrange(0, n as int) =~= tc@);
    }
    let c = match index_of(&tc, ':', 0, n) {
        None => {
            return;
        },
        Some(c) => c,
    };
    proof {
        lemma_index_of_from_bounds(tc@, ':', 0);
        assert(tc@.take(c as int) =~= tc@.subrange(0, c as int));
        assert(tc@.skip(c + 1) =~= tc@.subrange(c + 1, n as int));
    }
    let k = trim_range(&tc, 0, c);
    let v = trim_range(&tc, c + 1, n);
    if eq_ignore_ascii_case(k.as_str(), "status") {
        let vc = chars_of(v.as_str());
        let m = vc.len();
        proof {
            assert(vc@.subrange(0, m as int) =~= vc@);
        }
        match index_of(&vc, ' ', 0, m) {
            Some(sp) => {
                proof {
                    lemma_index_of_from_bounds(vc@, ' ', 0);
                    assert(vc@.take(sp as int) =~= vc@.subrange(0, sp as int));
                    assert(vc@.skip(sp + 1) =~= vc@.subrange(sp + 1, m as int));
                }
                match parse_u16_range(&vc, 0, sp) {
                    Some(c2) => {
                        *code = c2;
                        *text = trim_range(&vc, sp + 1, m);
                    },
                    None => {},
                }
            },
            None => {
                match parse_u16_range(&vc, 0, m) {
                    Some(c2) => {
                        *code = c2;
                    },
                    None => {},
                }
            },
        }
    } else {
        headers.push((k, v));
        proof {
            assert(pairs_view(headers@) =~= pairs_view(old(headers)@).push((k@, v@)));
        }
    }
}

fn first_double_lf(b: &[u8]) -> (r: Option<usize>)
    ensures
        match r {
            Some(p) => first_double_lf_from(b@, 0) == Some(p as int),
            None => first_double_lf_from(b@, 0) is None,
        },
{
    let n = b.len();
    if n < 2 {
        return None;
    }
    let mut i: usize = 0;
    while i <= n - 2
        invariant
            n == b@.len(),
            n >= 2,
            i <= n - 1,
            first_double_lf_from(b@, 0) == first_double_lf_from(b@, i as int),
        decreases n - i,
    {
        if b[i] == 10 && b[i + 1] == 10 {
            return Some(i);
        }
        i = i + 1;
    }
    None
}

proof fn lemma_blank_line_bounds(b: Seq<u8>, i: int)
    ensures
        first_blank_line_from(b, i) matches Some(p) ==> 0 <= p && p + 4 <= b.len(),
        first_double_lf_from(b, i) matches Some(p) ==> 0 <= p && p + 2 <= b.len(),
    decreases b.len() - i,
{
    if 0 <= i && i + 2 <= b.len() {
        lemma_blank_line_bounds(b, i + 1);
    }
}

/// Turns the output of a CGI run into a response (see [`cgi_result`]).
pub fn parse_cgi_output(stdout: &[u8], stderr: &[u8]) -> (r: HttpResponse)
    ensures
        ((r.status_code, r.status_text@, pairs_view(r.headers@)), r.body@) == cgi_result(stdout@, stderr@),
{
    proof {
        lemma_blank_line_bounds(stdout@, 0);
    }
    let n = stdout.len();
    let (head_end, body_start) = match find_request_end(stdout) {
        Some(e) => (e - 4, e),
        None => match first_double_lf(stdout) {
            Some(p) => (p, p + 2),
            None => (0, 0),
        },
    };
    let ghost split = cgi_split(stdout@);
    assert(split.0 =~= stdout@.subrange(0, head_end as int));
    assert(split.1 =~= stdout@.subrange(body_start as int, n as int));
    let mut code: u16 = 200;
    let mut text = "OK".to_owned();
    let mut headers: Vec<(String, String)> = Vec::new();
    if head_end > 0 {
        let head_bytes = slice_prefix(stdout, head_end);
        let head = from_utf8_lossy(head_bytes);
        let cs = chars_of(head.as_str());
        let len = cs.len();
        let mut i: usize = 0;
        proof {
            assert(pairs_view(headers@) =~= Seq::<(Seq<char>, Seq<char>)>::empty());
        }
        loop
            invariant_except_break
                i <= len,
                apply_lines_from((code, text@, pairs_view(headers@)), cs@, i as int) == apply_lines_from(
                    (200u16, "OK"@, seq![]),
                    cs@,
                    0,
                ),
            invariant
                len == cs@.len(),
                cs@ == utf8_lossy(split.0),
            ensures
                (code, text@, pairs_view(headers@)) == apply_lines_from((200u16, "OK"@, seq![]), cs@, 0),
            decreases len - i,
        {
            proof {
                assert(cs@.subrange(0, len as int) =~= cs@);
                lemma_index_of_from_bounds(cs@, '\n', i as int);
            }
            match index_of(&cs, '\n', i, len) {
                None => {
                    apply_line(&mut code, &mut text, &mut headers, &cs, i, len);
                    break;
                },
                Some(e) => {
                    apply_line(&mut code, &mut text, &mut headers, &cs, i, e);
                    i = e + 1;
                },
            }
        }
    }
    let mut body: Vec<u8> = slice_suffix(stdout, body_start);
    if body.len() == 0 && stderr.len() > 0 && code == 200 {
        code = 500;
        text = "Internal Server Error".to_owned();
        headers.push(("Content-Type".to_owned(), "text/plain; charset=utf-8".to_owned()));
        body = slice_suffix(stderr, 0);
    }
    HttpResponse { status_code: code, status_text: text, headers, body }
}

/// The first `n` bytes of `b`.
fn slice_prefix(b: &[u8], n: usize) -> (r: &[u8])
    requires
        n <= b@.len(),
    ensures
        r@ == b@.subrange(0, n as int),
{
    &b[0..n]
}

/// The bytes of `b` from `n` on, copied.
fn slice_suffix(b: &[u8], n: usize) -> (r: Vec<u8>)
    requires
        n <= b@.len(),
    ensures
        r@ == b@.subrange(n as int, b@.len() as int),
{
    let mut out: Vec<u8> = Vec::new();
    let mut i = n;
    while i < b.len()
        invariant
            n <= i <= b@.len(),
            out@ == b@.subrange(n as int, i as int),
        decreases b@.len() - i,
    {
        out.push(b[i]);
        proof {
            assert(out@ =~= b@.subrange(n as int, i as int + 1));
        }
        i = i + 1;
    }
    out
}

/// `s` with every `-` replaced by `_`.
pub open spec fn dashes_to_underscores(s: Seq<char>) -> Seq<char> {
    s.map_values(|c: char| if c == '-' { '_' } else { c })
}

/// The CGI variable an HTTP request header becomes.
pub open spec fn header_variable(name: Seq<char>, value: Seq<char>) -> (Seq<char>, Seq<char>) {
    let u = unicode_uppercase(name);
    if u == "CONTENT-TYPE"@ {
        ("CONTENT_TYPE"@, value)
    } else if u == "CONTENT-LENGTH"@ {
        ("CONTENT_LENGTH"@, value)
    } else {
        ("HTTP_"@ + dashes_to_underscores(u), value)
    }
}

/// An address `host:port` split at its first `:`, with `default_port` when
/// it has none.
pub open spec fn split_address(a: Seq<char>) -> Option<(Seq<char>, Seq<char>)> {
    match index_of_from(a, ':', 0) {
        Some(i) => Some((a.take(i), a.skip(i + 1))),
        None => None,
    }
}

/// The CGI variables for a request, in the order they are set (a later
/// one with the same name replaces an earlier): the fixed gateway
/// variables, the method, script name (the URI before any `?`), document
/// root, URI and query string, the client and server addresses, one
/// variable per request header, and the body length when there is a body.
pub open spec fn cgi_variables(
    method: Seq<char>,
    uri: Seq<char>,
    query_string: Seq<char>,
    docroot: Seq<char>,
    headers: Seq<(Seq<char>, Seq<char>)>,
    body_len: nat,
    remote_addr: Option<Seq<char>>,
    server_addr: Option<Seq<char>>,
) -> Seq<(Seq<char>, Seq<char>)> {
    let fixed = seq![
        ("REDIRECT_STATUS"@, "200"@),
        ("REQUEST_METHOD"@, method),
        ("SCRIPT_NAME"@, before_query(uri)),
        ("DOCUMENT_ROOT"@, docroot),
        ("REQUEST_URI"@, uri),
        ("QUERY_STRING"@, query_string),
        ("SERVER_SOFTWARE"@, "PHP-Hyperion/1.0.0 (PHP 8.4 Hybrid SAPI)"@),
        ("SERVER_PROTOCOL"@, "HTTP/1.1"@),
        ("GATEWAY_INTERFACE"@, "CGI/1.1"@),
    ];
    let remote = match remote_addr {
        Some(ra) => match split_address(ra) {
            Some((ip, port)) => seq![("REMOTE_ADDR"@, ip), ("REMOTE_PORT"@, port)],
            None => seq![("REMOTE_ADDR"@, ra)],
        },
        None => seq![("REMOTE_ADDR"@, "127.0.0.1"@), ("REMOTE_PORT"@, "80"@)],
    };
    let server = match server_addr {
        Some(sa) => match split_address(sa) {
            Some((ip, port)) => seq![("SERVER_NAME"@, ip), ("SERVER_PORT"@, port)],
            None => seq![("SERVER_NAME"@, sa), ("SERVER_PORT"@, "80"@)],
        },
        None => seq![("SERVER_NAME"@, "localhost"@), ("SERVER_PORT"@, "8000"@)],
    };
    let from_headers = headers.map_values(|h: (Seq<char>, Seq<char>)| header_variable(h.0, h.1));
    let length = if body_len > 0 {
        seq![("CONTENT_LENGTH"@, decimal(body_len).map_values(|b: u8| b as char))]
    } else {
        seq![]
    };
    fixed + remote + server + from_headers + length
}

fn push_var(vars: &mut Vec<(String, String)>, k: &str, v: &str)
    ensures
        pairs_view(final(vars)@) == pairs_view(old(vars)@).push((k@, v@)),
{
    vars.push((k.to_owned(), v.to_owned()));
    proof {
        assert(pairs_view(vars@) =~= pairs_view(old(vars)@).push((k@, v@)));
    }
}

fn split_address_exec(a: &str) -> (r: Option<(String, String)>)
    ensures
        match r {
            Some((x, y)) => split_address(a@) == Some((x@, y@)),
            None => split_address(a@) is None,
        },
{
    let cs = chars_of(a);
    let n = cs.len();
    proof {
        assert(cs@.subrange(0, n as int) =~= cs@);
    }
    match index_of(&cs, ':', 0, n) {
        Some(i) => {
            proof {
                lemma_index_of_from_bounds(cs@, ':', 0);
                assert(a@.take(i as int) =~= cs@.subrange(0, i as int));
                assert(a@.skip(i + 1) =~= cs@.subrange(i + 1, n as int));
            }
            Some((string_of(&cs, 0, i), string_of(&cs, i + 1, n)))
        },
        None => None,
    }
}

fn header_variable_exec(name: &str, value: &str) -> (r: (String, String))
    ensures
        (r.0@, r.1@) == header_variable(name@, value@),
{
    let u = to_uppercase(name);
    if str_equal(u.as_str(), "CONTENT-TYPE") {
        ("CONTENT_TYPE".to_owned(), value.to_owned())
    } else if str_equal(u.as_str(), "CONTENT-LENGTH") {
        ("CONTENT_LENGTH".to_owned(), value.to_owned())
    } else {
        let mut k = "HTTP_".to_owned();
        let ghost p = k@;
        for c in it: u.as_str().chars()
            invariant
                it.seq() == u@,
                k@ == p + dashes_to_underscores(u@.take(it.index() as int)),
        {
            proof {
                assert(dashes_to_underscores(u@.take(it.index() as int + 1)) =~= dashes_to_underscores(
                    u@.take(it.index() as int),
                ).push(if c == '-' { '_' } else { c }));
            }
            push_char(&mut k, if c == '-' { '_' } else { c });
        }
        proof {
            assert(u@.take(u@.len() as int) =~= u@);
        }
        (k, value.to_owned())
    }
}

/// The CGI variables for a request (see [`cgi_variables`]).
pub fn cgi_environment(
    method: &str,
    uri: &str,
    query_string: &str,
    docroot: &str,
    headers: &Vec<(String, String)>,
    body_len: usize,
    remote_addr: Option<&str>,
    server_addr: Option<&str>,
) -> (r: Vec<(String, String)>)
    ensures
        pairs_view(r@) == cgi_variables(
            method@,
            uri@,
            query_string@,
            docroot@,
            pairs_view(headers@),
            body_len as nat,
            match remote_addr { Some(a) => Some(a@), None => None },
            match server_addr { Some(a) => Some(a@), None => None },
        ),
{
    let mut vars: Vec<(String, String)> = Vec::new();
    push_var(&mut vars, "REDIRECT_STATUS", "200");
    push_var(&mut vars, "REQUEST_METHOD", method);
    let script_name = crate::server::uri_before_query(uri);
    push_var(&mut vars, "SCRIPT_NAME", script_name.as_str());
    push_var(&mut vars, "DOCUMENT_ROOT", docroot);
    push_var(&mut vars, "REQUEST_URI", uri);
    push_var(&mut vars, "QUERY_STRING", query_string);
    push_var(&mut vars, "SERVER_SOFTWARE", "PHP-Hyperion/1.0.0 (PHP 8.4 Hybrid SAPI)");
    push_var(&mut vars, "SERVER_PROTOCOL", "HTTP/1.1");
    push_var(&mut vars, "GATEWAY_INTERFACE", "CGI/1.1");
    let ghost fixed = pairs_view(vars@);
    match remote_addr {
        Some(ra) => match split_address_exec(ra) {
            Some((ip, port)) => {
                push_var(&mut vars, "REMOTE_ADDR", ip.as_str());
                push_var(&mut vars, "REMOTE_PORT", port.as_str());
            },
            None => {
                push_var(&mut vars, "REMOTE_ADDR", ra);
            },
        },
        None => {
            push_var(&mut vars, "REMOTE_ADDR", "127.0.0.1");
            push_var(&mut vars, "REMOTE_PORT", "80");
        },
    }
    let ghost with_remote = pairs_view(vars@);
    match server_addr {
        Some(sa) => match split_address_exec(sa) {
            Some((ip, port)) => {
                push_var(&mut vars, "SERVER_NAME", ip.as_str());
                push_var(&mut vars, "SERVER_PORT", port.as_str());
            },
            None => {
                push_var(&mut vars, "SERVER_NAME", sa);
                push_var(&mut vars, "SERVER_PORT", "80");
            },
        },
        None => {
            push_var(&mut vars, "SERVER_NAME", "localhost");
            push_var(&mut vars, "SERVER_PORT", "8000");
        },
    }
    let ghost before_headers = pairs_view(vars@);
    let ghost hv = pairs_view(headers@);
    let ghost mapped = hv.map_values(|h: (Seq<char>, Seq<char>)| header_variable(h.0, h.1));
    let mut i: usize = 0;
    while i < headers.len()
        invariant
            i <= headers@.len(),
            hv == pairs_view(headers@),
            mapped == hv.map_values(|h: (Seq<char>, Seq<char>)| header_variable(h.0, h.1)),
            pairs_view(vars@) == before_headers + mapped.take(i as int),
        decreases headers@.len() - i,
    {
        let (k, v) = header_variable_exec(headers[i].0.as_str(), headers[i].1.as_str());
        let ghost before = pairs_view(vars@);
        proof {
            assert(hv[i as int] == (headers@[i as int].0@, headers@[i as int].1@));
            assert(mapped[i as int] == (k@, v@));
        }
        vars.push((k, v));
        proof {
            assert(pairs_view(vars@) =~= before.push(mapped[i as int]));
            assert(mapped.take(i as int + 1) =~= mapped.take(i as int).push(mapped[i as int]));
            assert(pairs_view(vars@) =~= before_headers + mapped.take(i as int + 1));
        }
        i = i + 1;
    }
    proof {
        assert(mapped.take(headers@.len() as int) =~= mapped);
    }
    if body_len > 0 {
        let mut digits: Vec<u8> = Vec::new();
        push_decimal(&mut digits, body_len as u64);
        let mut value = String::new();
        let mut j: usize = 0;
        while j < digits.len()
            invariant
                j <= digits@.len(),
                value@ == digits@.take(j as int).map_values(|b: u8| b as char),
            decreases digits@.len() - j,
        {
            push_char(&mut value, digits[j] as char);
            proof {
                assert(digits@.take(j as int + 1).map_values(|b: u8| b as char) =~= digits@.take(j as int).map_values(
                    |b: u8| b as char,
                ).push(digits@[j as int] as char));
            }
            j = j + 1;
        }
        proof {
            assert(digits@.take(digits@.len() as int) =~= digits@);
            assert(digits@ =~= decimal(body_len as nat));
        }
        push_var(&mut vars, "CONTENT_LENGTH", value.as_str());
    }
    proof {
        assert(pairs_view(vars@) =~= cgi_variables(
            method@,
            uri@,
            query_string@,
            docroot@,
            pairs_view(headers@),
            body_len as nat,
            match remote_addr { Some(a) => Some(a@), None => None },
            match server_addr { Some(a) => Some(a@), None => None },
        ));
    }
    vars
}

} // verus!
