use vstd::prelude::*;
use vstd::utf8::encode_utf8;
use crate::fibre::{ExecutionResult, YieldReason};
use crate::http::{decimal, push_decimal};
use crate::names::{ascii_lower, eq_ignore_ascii_case, lower_bytes, str_equal, chars_of};

verus! {

/// Whether `buf` holds CR LF CR LF at `i`.
pub open spec fn blank_line_at(buf: Seq<u8>, i: int) -> bool {
    0 <= i && i + 4 <= buf.len() && buf[i] == 13 && buf[i + 1] == 10 && buf[i + 2] == 13 && buf[i + 3] == 10
}

/// The first position at `i` or later where a blank line starts.
pub open spec fn first_blank_line_from(buf: Seq<u8>, i: int) -> Option<int>
    decreases buf.len() - i,
{
    if i < 0 || i + 4 > buf.len() {
        None
    } else if blank_line_at(buf, i) {
        Some(i)
    } else {
        first_blank_line_from(buf, i + 1)
    }
}

/// Where a buffered HTTP request ends: just past the first blank line,
/// `None` while none has arrived.
pub fn find_request_end(buf: &[u8]) -> (r: Option<usize>)
    ensures
        match first_blank_line_from(buf@, 0) {
            Some(p) => r == Some((p + 4) as usize),
            None => r is None,
        },
{
    let n = buf.len();
    if n < 4 {
        return None;
    }
    let mut i: usize = 0;
    while i <= n - 4
        invariant
            n == buf@.len(),
            n >= 4,
            i <= n - 3,
            first_blank_line_from(buf@, 0) == first_blank_line_from(buf@, i as int),
        decreases n - i,
    {
        if buf[i] == 13 && buf[i + 1] == 10 && buf[i + 2] == 13 && buf[i + 3] == 10 {
            return Some(i + 4);
        }
        i = i + 1;
    }
    None
}

/// The reason phrase written after a response's status code when a script
/// finishes.
pub open spec fn finished_status_text(code: u16) -> Seq<char> {
    if code == 200 { "OK"@ }
    else if code == 201 { "Created"@ }
    else if code == 202 { "Accepted"@ }
    else if code == 204 { "No Content"@ }
    else if code == 301 { "Moved Permanently"@ }
    else if code == 302 { "Found"@ }
    else if code == 303 { "See Other"@ }
    else if code == 304 { "Not Modified"@ }
    else if code == 307 { "Temporary Redirect"@ }
    else if code == 308 { "Permanent Redirect"@ }
    else if code == 400 { "Bad Request"@ }
    else if code == 401 { "Unauthorized"@ }
    else if code == 403 { "Forbidden"@ }
    else if code == 404 { "Not Found"@ }
    else if code == 405 { "Method Not Allowed"@ }
    else if code == 419 { "Page Expired"@ }
    else if code == 422 { "Unprocessable Entity"@ }
    else if code == 429 { "Too Many Requests"@ }
    else if code == 500 { "Internal Server Error"@ }
    else if code == 502 { "Bad Gateway"@ }
    else if code == 503 { "Service Unavailable"@ }
    else { "OK"@ }
}

/// The reason phrase written when a worker-mode script waits for its next
/// request.
pub open spec fn waiting_status_text(code: u16) -> Seq<char> {
    if code == 200 { "OK"@ }
    else if code == 201 { "Created"@ }
    else if code == 202 { "Accepted"@ }
    else if code == 204 { "No Content"@ }
    else if code == 301 { "Moved Permanently"@ }
    else if code == 302 { "Found"@ }
    else if code == 400 { "Bad Request"@ }
    else if code == 401 { "Unauthorized"@ }
    else if code == 403 { "Forbidden"@ }
    else if code == 404 { "Not Found"@ }
    else if code == 405 { "Method Not Allowed"@ }
    else if code == 422 { "Unprocessable Entity"@ }
    else if code == 500 { "Internal Server Error"@ }
    else { "OK"@ }
}

/// The reason phrase for a finished script's status code.
pub fn finished_status_text_for(code: u16) -> (r: &'static str)
    ensures
        r@ == finished_status_text(code),
{
    match code {
        200 => "OK",
        201 => "Created",
        202 => "Accepted",
        204 => "No Content",
        301 => "Moved Permanently",
        302 => "Found",
        303 => "See Other",
        304 => "Not Modified",
        307 => "Temporary Redirect",
        308 => "Permanent Redirect",
        400 => "Bad Request",
        401 => "Unauthorized",
        403 => "Forbidden",
        404 => "Not Found",
        405 => "Method Not Allowed",
        419 => "Page Expired",
        422 => "Unprocessable Entity",
        429 => "Too Many Requests",
        500 => "Internal Server Error",
        502 => "Bad Gateway",
        503 => "Service Unavailable",
        _ => "OK",
    }
}

/// The reason phrase for a waiting worker script's status code.
pub fn waiting_status_text_for(code: u16) -> (r: &'static str)
    ensures
        r@ == waiting_status_text(code),
{
    match code {
        200 => "OK",
        201 => "Created",
        202 => "Accepted",
        204 => "No Content",
        301 => "Moved Permanently",
        302 => "Found",
        400 => "Bad Request",
        401 => "Unauthorized",
        403 => "Forbidden",
        404 => "Not Found",
        405 => "Method Not Allowed",
        422 => "Unprocessable Entity",
        500 => "Internal Server Error",
        _ => "OK",
    }
}

/// Whether a header name is `name` up to ASCII case.
pub open spec fn named(k: Seq<char>, name: Seq<char>) -> bool {
    ascii_lower(k) == ascii_lower(name)
}

/// The `Name: value` lines of a script's response headers, without any
/// `Content-Length` header (the server writes its own).
pub open spec fn script_header_lines(headers: Seq<(String, String)>) -> Seq<u8>
    decreases headers.len(),
{
    if headers.len() == 0 {
        seq![]
    } else {
        let (k, v) = headers.last();
        script_header_lines(headers.drop_last()) + if named(k@, "content-length"@) {
            seq![]
        } else {
            encode_utf8(k@) + encode_utf8(": "@) + encode_utf8(v@) + encode_utf8("\r\n"@)
        }
    }
}

/// Whether a script set a `Content-Type` header.
pub open spec fn has_content_type(headers: Seq<(String, String)>) -> bool {
    exists|i: int| 0 <= i < headers.len() && named(#[trigger] headers[i].0@, "content-type"@)
}

/// The head of a response to a script's output: status line, the script's
/// headers, a `Content-Type` of `default_type` unless the script set one,
/// `Content-Length` and `Connection`, and the blank line.
pub open spec fn response_head(
    code: u16,
    text: Seq<char>,
    headers: Seq<(String, String)>,
    default_type: Seq<char>,
    body_len: nat,
    keep_alive: bool,
) -> Seq<u8> {
    encode_utf8("HTTP/1.1 "@) + decimal(code as nat) + encode_utf8(" "@) + encode_utf8(text) + encode_utf8(
        "\r\n"@,
    ) + script_header_lines(headers) + (if has_content_type(headers) {
        seq![]
    } else {
        encode_utf8("Content-Type: "@) + encode_utf8(default_type) + encode_utf8("\r\n"@)
    }) + encode_utf8("Content-Length: "@) + decimal(body_len) + encode_utf8("\r\nConnection: "@)
        + encode_utf8(if keep_alive { "keep-alive"@ } else { "close"@ }) + encode_utf8("\r\n\r\n"@)
}

fn push_script_headers(out: &mut Vec<u8>, headers: &Vec<(String, String)>) -> (has_ct: bool)
    ensures
        final(out)@ == old(out)@ + script_header_lines(headers@),
        has_ct == has_content_type(headers@),
{
    let ghost prefix = out@;
    let mut has_ct = false;
    let mut i: usize = 0;
    while i < headers.len()
        invariant
            i <= headers@.len(),
            prefix == old(out)@,
            out@ == prefix + script_header_lines(headers@.take(i as int)),
            has_ct == has_content_type(headers@.take(i as int)),
        decreases headers@.len() - i,
    {
        let ghost hs = headers@.take(i as int + 1);
        proof {
            assert(hs.drop_last() =~= headers@.take(i as int));
            assert(hs.last() == headers@[i as int]);
        }
        let k = headers[i].0.as_str();
        let v = headers[i].1.as_str();
        let is_ct = eq_ignore_ascii_case(k, "content-type");
        proof {
            if has_content_type(hs) && !has_content_type(headers@.take(i as int)) {
                let j = choose|j: int| 0 <= j < hs.len() && named(#[trigger] hs[j].0@, "content-type"@);
                if j < i {
                    assert(headers@.take(i as int)[j] == hs[j]);
                }
            }
            if has_content_type(headers@.take(i as int)) {
                let j = choose|j: int| 0 <= j < i && named(#[trigger] headers@.take(i as int)[j].0@, "content-type"@);
                assert(hs[j] == headers@.take(i as int)[j]);
            }
            if is_ct {
                assert(named(hs[i as int].0@, "content-type"@));
            }
        }
        if is_ct {
            has_ct = true;
        }
        if !eq_ignore_ascii_case(k, "content-length") {
            out.extend_from_slice(k.as_bytes());
            out.extend_from_slice(": ".as_bytes());
            out.extend_from_slice(v.as_bytes());
            out.extend_from_slice("\r\n".as_bytes());
        }
        proof {
            assert(out@ =~= prefix + script_header_lines(hs));
        }
        i = i + 1;
    }
    proof {
        assert(headers@.take(headers@.len() as int) =~= headers@);
    }
    has_ct
}

fn write_head(
    code: u16,
    text: &str,
    headers: &Vec<(String, String)>,
    default_type: &str,
    body_len: usize,
    keep_alive: bool,
) -> (r: Vec<u8>)
    ensures
        r@ == response_head(code, text@, headers@, default_type@, body_len as nat, keep_alive),
{
    let mut out: Vec<u8> = Vec::new();
    out.extend_from_slice("HTTP/1.1 ".as_bytes());
    push_decimal(&mut out, code as u64);
    out.extend_from_slice(" ".as_bytes());
    out.extend_from_slice(text.as_bytes());
    out.extend_from_slice("\r\n".as_bytes());
    let ghost a = out@;
    let has_ct = push_script_headers(&mut out, headers);
    let ghost b = out@;
    if !has_ct {
        out.extend_from_slice("Content-Type: ".as_bytes());
        out.extend_from_slice(default_type.as_bytes());
        out.extend_from_slice("\r\n".as_bytes());
    }
    let ghost c = out@;
    out.extend_from_slice("Content-Length: ".as_bytes());
    push_decimal(&mut out, body_len as u64);
    out.extend_from_slice("\r\nConnection: ".as_bytes());
    if keep_alive {
        out.extend_from_slice("keep-alive".as_bytes());
    } else {
        out.extend_from_slice("close".as_bytes());
    }
    out.extend_from_slice("\r\n\r\n".as_bytes());
    proof {
        assert(out@ =~= response_head(code, text@, headers@, default_type@, body_len as nat, keep_alive));
    }
    out
}

/// Whether a body looks like JSON: it starts with `{` or `[`.
pub open spec fn looks_like_json(body: Seq<u8>) -> bool {
    body.len() > 0 && (body[0] == 123 || body[0] == 91)
}

/// The head of the response sent when a script finishes: a body starting
/// with `{` or `[` defaults to `application/json`, any other to HTML.
pub fn finished_response_head(
    code: u16,
    headers: &Vec<(String, String)>,
    body: &[u8],
    keep_alive: bool,
) -> (r: Vec<u8>)
    ensures
        r@ == response_head(
            code,
            finished_status_text(code),
            headers@,
            if looks_like_json(body@) { "application/json"@ } else { "text/html; charset=UTF-8"@ },
            body@.len(),
            keep_alive,
        ),
{
    let text = finished_status_text_for(code);
    let json = body.len() > 0 && (body[0] == 123 || body[0] == 91);
    let ct = if json { "application/json" } else { "text/html; charset=UTF-8" };
    write_head(code, text, headers, ct, body.len(), keep_alive)
}

/// The head of the response sent when a worker-mode script waits for its
/// next request: the content type defaults to HTML.
pub fn waiting_response_head(
    code: u16,
    headers: &Vec<(String, String)>,
    body_len: usize,
    keep_alive: bool,
) -> (r: Vec<u8>)
    ensures
        r@ == response_head(
            code,
            waiting_status_text(code),
            headers@,
            "text/html; charset=UTF-8"@,
            body_len as nat,
            keep_alive,
        ),
{
    let text = waiting_status_text_for(code);
    write_head(code, text, headers, "text/html; charset=UTF-8", body_len, keep_alive)
}

/// The upper-case hexadecimal digits of `n`.
pub open spec fn hex_upper(n: nat) -> Seq<u8>
    decreases n,
{
    let d = n % 16;
    let c = (if d < 10 { 48 + d } else { 55 + d }) as u8;
    if n < 16 {
        seq![c]
    } else {
        hex_upper(n / 16).push(c)
    }
}

fn push_hex_upper(out: &mut Vec<u8>, n: u64)
    ensures
        final(out)@ == old(out)@ + hex_upper(n as nat),
    decreases n,
{
    if n >= 16 {
        push_hex_upper(out, n / 16);
    }
    let d: u8 = (n % 16) as u8;
    let c: u8 = if d < 10 { 48 + d } else { 55 + d };
    out.push(c);
    proof {
        assert(final(out)@ =~= old(out)@ + hex_upper(n as nat));
    }
}

/// The size line of a chunk in chunked transfer encoding: its length in
/// upper-case hexadecimal and CRLF.
pub fn chunk_header(len: usize) -> (r: Vec<u8>)
    ensures
        r@ == hex_upper(len as nat) + encode_utf8("\r\n"@),
{
    let mut out: Vec<u8> = Vec::new();
    push_hex_upper(&mut out, len as u64);
    out.extend_from_slice("\r\n".as_bytes());
    proof {
        assert(out@ =~= hex_upper(len as nat) + encode_utf8("\r\n"@));
    }
    out
}

/// What `httparse::Request::parse` makes of a request buffer, with room for
/// 64 headers: `None` on a parse error, else the body offset (`None` while
/// the request is partial), method, path, minor version and headers.
pub uninterp spec fn httparse_request(buf: Seq<u8>) -> Option<
    (Option<nat>, Option<Seq<char>>, Option<Seq<char>>, Option<u8>, Seq<(Seq<char>, Seq<u8>)>),
>;

/// A request as the HTTP parser returned it.
pub struct ParsedRequest {
    pub body_offset: Option<usize>,
    pub method: Option<String>,
    pub path: Option<String>,
    pub version: Option<u8>,
    pub headers: Vec<(String, Vec<u8>)>,
}

/// The headers of a parsed request as plain values.
pub open spec fn headers_view(h: Seq<(String, Vec<u8>)>) -> Seq<(Seq<char>, Seq<u8>)> {
    h.map_values(|e: (String, Vec<u8>)| (e.0@, e.1@))
}

/// A parsed request as plain values.
pub open spec fn parsed_view(p: ParsedRequest) -> (Option<nat>, Option<Seq<char>>, Option<Seq<char>>, Option<u8>, Seq<(Seq<char>, Seq<u8>)>) {
    (
        match p.body_offset { Some(o) => Some(o as nat), None => None },
        crate::classes::opt_str(p.method),
        crate::classes::opt_str(p.path),
        p.version,
        headers_view(p.headers@),
    )
}

/// Parses an HTTP/1.x request with `httparse::Request::parse` and 64
/// header slots. Claimed: the result is `httparse_request` of the bytes,
/// and a body offset never lies past the buffer.
#[verifier::external_body]
pub(crate) fn parse_request(buf: &[u8]) -> (r: Option<ParsedRequest>)
    ensures
        match r {
            None => httparse_request(buf@) is None,
            Some(p) => httparse_request(buf@) == Some(parsed_view(p)),
        },
        r matches Some(p) ==> (p.body_offset matches Some(o) ==> o <= buf@.len()),
{
    let mut headers = [httparse::EMPTY_HEADER; 64];
    let mut req = httparse::Request::new(&mut headers);
    let status = req.parse(buf).ok()?;
    let body_offset = match status {
        httparse::Status::Complete(n) => Some(n),
        httparse::Status::Partial => None,
    };
    let headers = req.headers.iter().map(|h| (h.name.to_string(), h.value.to_vec())).collect();
    Some(ParsedRequest { body_offset, method: req.method.map(|m| m.to_string()), path: req.path.map(|p| p.to_string()), version: req.version, headers })
}

/// `String::from_utf8_lossy`: the bytes decoded as UTF-8, each invalid
/// sequence replaced by U+FFFD.
pub uninterp spec fn utf8_lossy(b: Seq<u8>) -> Seq<char>;

/// `String::from_utf8_lossy`. Claimed: the result is `utf8_lossy` of the
/// bytes, and bytes that are the UTF-8 encoding of a string decode to that
/// string; which replacements it makes otherwise is not stated here.
#[verifier::external_body]
pub(crate) fn from_utf8_lossy(b: &[u8]) -> (r: String)
    ensures
        r@ == utf8_lossy(b@),
        forall|s: Seq<char>| #[trigger] encode_utf8(s) == b@ ==> r@ == s,
{
    String::from_utf8_lossy(b).into_owned()
}

/// Whether `s` contains `pat` as a contiguous part.
pub open spec fn contains_seq<T>(s: Seq<T>, pat: Seq<T>) -> bool {
    exists|i: int| 0 <= i && i + pat.len() <= s.len() && #[trigger] s.subrange(i, i + pat.len()) == pat
}

/// Whether `s` contains `pat`.
pub fn str_contains(s: &str, pat: &str) -> (r: bool)
    ensures
        r == contains_seq(s@, pat@),
{
    let sc = chars_of(s);
    let pc = chars_of(pat);
    let n = sc.len();
    let m = pc.len();
    if m > n {
        proof {
            assert forall|i: int| 0 <= i && i + m <= n implies #[trigger] s@.subrange(i, i + m) != pat@ by {}
        }
        return false;
    }
    let mut i: usize = 0;
    while i <= n - m
        invariant
            sc@ == s@,
            pc@ == pat@,
            n == s@.len(),
            m == pat@.len(),
            m <= n,
            i <= n - m + 1,
            forall|k: int| 0 <= k < i ==> #[trigger] s@.subrange(k, k + m) != pat@,
        decreases n - m + 1 - i,
    {
        let mut j: usize = 0;
        let mut same = true;
        while j < m
            invariant
                sc@ == s@,
                pc@ == pat@,
                n == s@.len(),
                m == pat@.len(),
                i + m <= n,
                j <= m,
                same == (forall|t: int| 0 <= t < j ==> s@[i + t] == pat@[t]),
            decreases m - j,
        {
            if sc[i + j] != pc[j] {
                same = false;
            }
            j = j + 1;
        }
        if same {
            proof {
                assert(s@.subrange(i as int, i + m) =~= pat@);
            }
            return true;
        }
        proof {
            let t = choose|t: int| 0 <= t < m && s@[i + t] != pat@[t];
            assert(s@.subrange(i as int, i + m)[t] != pat@[t]);
        }
        i = i + 1;
    }
    false
}

/// Whether two byte strings are equal once ASCII letters are lower-cased.
fn bytes_eq_ignore_ascii_case(a: &[u8], b: &[u8]) -> (r: bool)
    ensures
        r == (lower_bytes(a@) == lower_bytes(b@)),
{
    if a.len() != b.len() {
        proof {
            assert(lower_bytes(a@).len() != lower_bytes(b@).len());
        }
        return false;
    }
    let mut i: usize = 0;
    while i < a.len()
        invariant
            a@.len() == b@.len(),
            i <= a@.len(),
            forall|j: int| 0 <= j < i ==> crate::names::lower_byte(#[trigger] a@[j]) == crate::names::lower_byte(b@[j]),
        decreases a@.len() - i,
    {
        let x = a[i];
        let y = b[i];
        let lx: u8 = if x >= 65 && x <= 90 { x + 32 } else { x };
        let ly: u8 = if y >= 65 && y <= 90 { y + 32 } else { y };
        if lx != ly {
            proof {
                assert(lower_bytes(a@)[i as int] != lower_bytes(b@)[i as int]);
            }
            return false;
        }
        i = i + 1;
    }
    proof {
        assert(lower_bytes(a@) =~= lower_bytes(b@));
    }
    true
}

/// Whether the connection stays open after a request: HTTP/1.1 keeps it
/// unless told otherwise; each `Connection: close` or `Connection:
/// keep-alive` header, in order, overrides what came before.
pub open spec fn keep_alive_after(version_is_1: bool, headers: Seq<(Seq<char>, Seq<u8>)>) -> bool
    decreases headers.len(),
{
    if headers.len() == 0 {
        version_is_1
    } else {
        let prev = keep_alive_after(version_is_1, headers.drop_last());
        let (k, v) = headers.last();
        if named(k, "connection"@) {
            if lower_bytes(v) == lower_bytes(encode_utf8("close"@)) {
                false
            } else if lower_bytes(v) == lower_bytes(encode_utf8("keep-alive"@)) {
                true
            } else {
                prev
            }
        } else {
            prev
        }
    }
}

/// Whether a request carries a cookie header mentioning `blog_user`.
pub open spec fn has_auth_cookie(headers: Seq<(Seq<char>, Seq<u8>)>) -> bool {
    exists|i: int|
        0 <= i < headers.len() && named(#[trigger] headers[i].0, "cookie"@) && contains_seq(
            utf8_lossy(headers[i].1),
            "blog_user"@,
        )
}

/// The part of a request path before any `?`.
pub open spec fn before_query(p: Seq<char>) -> Seq<char>
    decreases p.len(),
{
    if p.len() == 0 {
        p
    } else if before_query(p.drop_last()).len() < p.len() - 1 {
        before_query(p.drop_last())
    } else if p.last() == '?' {
        p.drop_last()
    } else {
        p
    }
}

/// A path with all its leading `/` removed.
pub open spec fn trim_leading_slashes(p: Seq<char>) -> Seq<char>
    decreases p.len(),
{
    if p.len() > 0 && p[0] == '/' {
        trim_leading_slashes(p.drop_first())
    } else {
        p
    }
}

/// What the server takes from a request: where its body starts, its path
/// (`/` when absent), the path without query and leading slashes, whether
/// the connection stays open, whether it carries the blog's auth cookie,
/// and its method.
pub struct RequestPlan {
    pub body_offset: usize,
    pub path: String,
    pub raw_clean_path: String,
    pub keep_alive: bool,
    pub has_auth_cookie: bool,
    pub method: Option<String>,
}

/// The part of a URI before any `?`.
pub fn uri_before_query(p: &str) -> (r: String)
    ensures
        r@ == before_query(p@),
{
    let cs = chars_of(p);
    let mut end: usize = 0;
    while end < cs.len() && cs[end] != '?'
        invariant
            cs@ == p@,
            end <= cs@.len(),
            before_query(p@.take(end as int)) == p@.take(end as int),
            forall|k: int| 0 <= k < end ==> p@[k] != '?',
        decreases cs@.len() - end,
    {
        proof {
            assert(p@.take(end as int + 1).drop_last() =~= p@.take(end as int));
        }
        end = end + 1;
    }
    proof {
        lemma_before_query(p@, end as int);
    }
    let mut out = String::new();
    let mut k: usize = 0;
    while k < end
        invariant
            cs@ == p@,
            k <= end <= cs@.len(),
            out@ == p@.subrange(0, k as int),
        decreases end - k,
    {
        crate::names::push_char(&mut out, cs[k]);
        proof {
            assert(out@ =~= p@.subrange(0, k as int + 1));
        }
        k = k + 1;
    }
    proof {
        assert(p@.take(end as int) =~= p@.subrange(0, end as int));
    }
    out
}

fn path_before_query(p: &str) -> (r: String)
    ensures
        r@ == trim_leading_slashes(before_query(p@)),
{
    let cs = chars_of(p);
    let mut end: usize = 0;
    while end < cs.len() && cs[end] != '?'
        invariant
            cs@ == p@,
            end <= cs@.len(),
            before_query(p@.take(end as int)) == p@.take(end as int),
            forall|k: int| 0 <= k < end ==> p@[k] != '?',
        decreases cs@.len() - end,
    {
        proof {
            assert(p@.take(end as int + 1).drop_last() =~= p@.take(end as int));
        }
        end = end + 1;
    }
    proof {
        lemma_before_query(p@, end as int);
    }
    let mut start: usize = 0;
    while start < end && cs[start] == '/'
        invariant
            cs@ == p@,
            start <= end <= cs@.len(),
            trim_leading_slashes(p@.take(end as int)) == trim_leading_slashes(p@.subrange(start as int, end as int)),
        decreases end - start,
    {
        proof {
            assert(p@.subrange(start as int, end as int).drop_first() =~= p@.subrange(start as int + 1, end as int));
        }
        start = start + 1;
    }
    let mut out = String::new();
    let mut k: usize = start;
    while k < end
        invariant
            cs@ == p@,
            start <= k <= end <= cs@.len(),
            out@ == p@.subrange(start as int, k as int),
        decreases end - k,
    {
        crate::names::push_char(&mut out, cs[k]);
        proof {
            assert(out@ =~= p@.subrange(start as int, k as int + 1));
        }
        k = k + 1;
    }
    proof {
        let t = p@.subrange(start as int, end as int);
        if t.len() > 0 {
            assert(t[0] == cs@[start as int]);
        }
    }
    out
}

proof fn lemma_before_query(p: Seq<char>, end: int)
    requires
        0 <= end <= p.len(),
        forall|k: int| 0 <= k < end ==> p[k] != '?',
        end == p.len() || p[end] == '?',
        before_query(p.take(end)) == p.take(end),
    ensures
        before_query(p) == p.take(end),
    decreases p.len() - end,
{
    if end < p.len() {
        let q = p.take(end + 1);
        assert(q.drop_last() =~= p.take(end));
        assert(before_query(q) =~= p.take(end));
        lemma_before_query_suffix(p, end + 1, end);
    } else {
        assert(p.take(end) =~= p);
    }
}

proof fn lemma_before_query_suffix(p: Seq<char>, n: int, end: int)
    requires
        0 <= end < n <= p.len(),
        before_query(p.take(n)) == p.take(end),
    ensures
        before_query(p) == p.take(end),
    decreases p.len() - n,
{
    if n < p.len() {
        let q = p.take(n + 1);
        assert(q.drop_last() =~= p.take(n));
        assert(before_query(q) == p.take(end));
        lemma_before_query_suffix(p, n + 1, end);
    } else {
        assert(p.take(n) =~= p);
    }
}

/// The plan for a request whose bytes number `len`, from what the parser
/// returned for it: the body offset (`len` while the request is partial),
/// the path (`/` when absent), that path without query and leading
/// slashes, whether the connection stays open, whether the auth cookie is
/// there, and the method.
pub open spec fn plan_of(
    len: nat,
    parsed: (Option<nat>, Option<Seq<char>>, Option<Seq<char>>, Option<u8>, Seq<(Seq<char>, Seq<u8>)>),
) -> (nat, Seq<char>, Seq<char>, bool, bool, Option<Seq<char>>) {
    let (off, method, path, version, headers) = parsed;
    let p = match path { Some(p) => p, None => "/"@ };
    (
        match off { Some(o) => o, None => len },
        p,
        trim_leading_slashes(before_query(p)),
        keep_alive_after(version == Some(1u8) || version is None, headers),
        has_auth_cookie(headers),
        method,
    )
}

/// The plan for a buffered request `req` (the bytes up to and including its
/// blank line): `None` when the parser rejects it.
pub open spec fn request_plan(req: Seq<u8>) -> Option<(nat, Seq<char>, Seq<char>, bool, bool, Option<Seq<char>>)> {
    match httparse_request(req) {
        None => None,
        Some(parsed) => Some(plan_of(req.len(), parsed)),
    }
}

/// A plan as plain values.
pub open spec fn plan_view(p: RequestPlan) -> (nat, Seq<char>, Seq<char>, bool, bool, Option<Seq<char>>) {
    (p.body_offset as nat, p.path@, p.raw_clean_path@, p.keep_alive, p.has_auth_cookie, crate::classes::opt_str(p.method))
}

fn keep_alive_exec(version_is_1: bool, headers: &Vec<(String, Vec<u8>)>) -> (r: bool)
    ensures
        r == keep_alive_after(version_is_1, headers_view(headers@)),
{
    let mut ka = version_is_1;
    let mut i: usize = 0;
    while i < headers.len()
        invariant
            i <= headers@.len(),
            ka == keep_alive_after(version_is_1, headers_view(headers@.take(i as int))),
        decreases headers@.len() - i,
    {
        proof {
            assert(headers_view(headers@.take(i as int + 1)).drop_last() =~= headers_view(headers@.take(i as int)));
        }
        if eq_ignore_ascii_case(headers[i].0.as_str(), "connection") {
            let v = headers[i].1.as_slice();
            if bytes_eq_ignore_ascii_case(v, "close".as_bytes()) {
                ka = false;
            } else if bytes_eq_ignore_ascii_case(v, "keep-alive".as_bytes()) {
                ka = true;
            }
        }
        i = i + 1;
    }
    proof {
        assert(headers@.take(headers@.len() as int) =~= headers@);
    }
    ka
}

fn auth_cookie_exec(headers: &Vec<(String, Vec<u8>)>) -> (r: bool)
    ensures
        r == has_auth_cookie(headers_view(headers@)),
{
    let ghost hv = headers_view(headers@);
    let mut i: usize = 0;
    while i < headers.len()
        invariant
            i <= headers@.len(),
            hv == headers_view(headers@),
            forall|j: int| 0 <= j < i ==> !(named(#[trigger] hv[j].0, "cookie"@) && contains_seq(utf8_lossy(hv[j].1), "blog_user"@)),
        decreases headers@.len() - i,
    {
        if eq_ignore_ascii_case(headers[i].0.as_str(), "cookie") {
            let text = from_utf8_lossy(headers[i].1.as_slice());
            if str_contains(text.as_str(), "blog_user") {
                assert(named(hv[i as int].0, "cookie"@));
                return true;
            }
        }
        i = i + 1;
    }
    false
}

/// Decides how to serve a request of `len` bytes from what the parser
/// returned for it (see [`plan_of`]).
pub fn plan_parsed_request(len: usize, parsed: ParsedRequest) -> (r: RequestPlan)
    requires
        parsed.body_offset matches Some(o) ==> o <= len,
    ensures
        plan_view(r) == plan_of(len as nat, parsed_view(parsed)),
        r.body_offset <= len,
{
    let body_offset = match parsed.body_offset {
        Some(o) => o,
        None => len,
    };
    let path = match &parsed.path {
        Some(p) => p.clone(),
        None => "/".to_owned(),
    };
    let raw_clean_path = path_before_query(path.as_str());
    let version_is_1 = match parsed.version {
        Some(v) => v == 1,
        None => true,
    };
    let keep_alive = keep_alive_exec(version_is_1, &parsed.headers);
    let has_auth_cookie = auth_cookie_exec(&parsed.headers);
    RequestPlan { body_offset, path, raw_clean_path, keep_alive, has_auth_cookie, method: parsed.method }
}

/// Reads a buffered request and decides how to serve it (see
/// [`request_plan`]).
pub fn plan_request(req: &[u8]) -> (r: Option<RequestPlan>)
    ensures
        match r {
            None => request_plan(req@) is None,
            Some(p) => request_plan(req@) == Some(plan_view(p)) && p.body_offset <= req@.len(),
        },
{
    match parse_request(req) {
        None => None,
        Some(p) => Some(plan_parsed_request(req.len(), p)),
    }
}

/// Whether a request is the guest `GET /api/me` the server answers itself:
/// no auth cookie, the path is `api/me` (after decoding) or `/api/me`, and
/// the method, when known, is `GET` up to ASCII case.
pub open spec fn is_guest_me_request(clean_path: Seq<char>, path: Seq<char>, method: Option<Seq<char>>, has_cookie: bool) -> bool {
    !has_cookie && (clean_path == "api/me"@ || path == "/api/me"@) && match method {
        Some(m) => named(m, "GET"@),
        None => true,
    }
}

/// Decides whether the server answers the request itself as a guest
/// `/api/me` call (see [`is_guest_me_request`]).
pub fn guest_me_request(clean_path: &str, plan: &RequestPlan) -> (r: bool)
    ensures
        r == is_guest_me_request(clean_path@, plan.path@, crate::classes::opt_str(plan.method), plan.has_auth_cookie),
{
    if plan.has_auth_cookie {
        return false;
    }
    if !(str_equal(clean_path, "api/me") || str_equal(plan.path.as_str(), "/api/me")) {
        return false;
    }
    match &plan.method {
        Some(m) => eq_ignore_ascii_case(m.as_str(), "GET"),
        None => true,
    }
}

/// The body of the guest `/api/me` answer.
pub open spec fn guest_me_body() -> Seq<u8> {
    encode_utf8("{\"authenticated\":false,\"user\":null}"@)
}

/// The whole guest `/api/me` answer: a JSON response with the connection
/// header matching `keep_alive`.
pub fn guest_me_response(keep_alive: bool) -> (r: Vec<u8>)
    ensures
        r@ == encode_utf8("HTTP/1.1 200 OK\r\nContent-Type: application/json\r\nContent-Length: "@) + decimal(
            guest_me_body().len(),
        ) + encode_utf8("\r\nConnection: "@) + encode_utf8(if keep_alive { "keep-alive"@ } else { "close"@ })
            + encode_utf8("\r\n\r\n"@) + guest_me_body(),
{
    let body = "{\"authenticated\":false,\"user\":null}".as_bytes();
    let mut out: Vec<u8> = Vec::new();
    out.extend_from_slice("HTTP/1.1 200 OK\r\nContent-Type: application/json\r\nContent-Length: ".as_bytes());
    push_decimal(&mut out, body.len() as u64);
    out.extend_from_slice("\r\nConnection: ".as_bytes());
    if keep_alive {
        out.extend_from_slice("keep-alive".as_bytes());
    } else {
        out.extend_from_slice("close".as_bytes());
    }
    out.extend_from_slice("\r\n\r\n".as_bytes());
    out.extend_from_slice(body);
    proof {
        assert(out@ =~= encode_utf8("HTTP/1.1 200 OK\r\nContent-Type: application/json\r\nContent-Length: "@) + decimal(
            guest_me_body().len(),
        ) + encode_utf8("\r\nConnection: "@) + encode_utf8(if keep_alive { "keep-alive"@ } else { "close"@ })
            + encode_utf8("\r\n\r\n"@) + guest_me_body());
    }
    out
}

/// The head of the response serving a static file.
pub fn static_file_response_head(content_type: &str, len: usize, keep_alive: bool) -> (r: Vec<u8>)
    ensures
        r@ == encode_utf8("HTTP/1.1 200 OK\r\nContent-Type: "@) + encode_utf8(content_type@) + encode_utf8(
            "\r\nContent-Length: "@,
        ) + decimal(len as nat) + encode_utf8("\r\nConnection: "@) + encode_utf8(
            if keep_alive { "keep-alive"@ } else { "close"@ },
        ) + encode_utf8("\r\n\r\n"@),
{
    let mut out: Vec<u8> = Vec::new();
    out.extend_from_slice("HTTP/1.1 200 OK\r\nContent-Type: ".as_bytes());
    out.extend_from_slice(content_type.as_bytes());
    out.extend_from_slice("\r\nContent-Length: ".as_bytes());
    push_decimal(&mut out, len as u64);
    out.extend_from_slice("\r\nConnection: ".as_bytes());
    if keep_alive {
        out.extend_from_slice("keep-alive".as_bytes());
    } else {
        out.extend_from_slice("close".as_bytes());
    }
    out.extend_from_slice("\r\n\r\n".as_bytes());
    proof {
        assert(out@ =~= encode_utf8("HTTP/1.1 200 OK\r\nContent-Type: "@) + encode_utf8(content_type@) + encode_utf8(
            "\r\nContent-Length: "@,
        ) + decimal(len as nat) + encode_utf8("\r\nConnection: "@) + encode_utf8(
            if keep_alive { "keep-alive"@ } else { "close"@ },
        ) + encode_utf8("\r\n\r\n"@));
    }
    out
}

/// The `500` response closing a connection whose script failed, carrying
/// `body` as plain text.
pub fn error_response(body: &str) -> (r: Vec<u8>)
    ensures
        r@ == encode_utf8("HTTP/1.1 500 Internal Server Error\r\nContent-Type: text/plain; charset=UTF-8\r\nContent-Length: "@)
            + decimal(encode_utf8(body@).len()) + encode_utf8("\r\nConnection: close\r\n\r\n"@) + encode_utf8(body@),
{
    let b = body.as_bytes();
    let mut out: Vec<u8> = Vec::new();
    out.extend_from_slice("HTTP/1.1 500 Internal Server Error\r\nContent-Type: text/plain; charset=UTF-8\r\nContent-Length: ".as_bytes());
    push_decimal(&mut out, b.len() as u64);
    out.extend_from_slice("\r\nConnection: close\r\n\r\n".as_bytes());
    out.extend_from_slice(b);
    proof {
        assert(out@ =~= encode_utf8("HTTP/1.1 500 Internal Server Error\r\nContent-Type: text/plain; charset=UTF-8\r\nContent-Length: "@)
            + decimal(encode_utf8(body@).len()) + encode_utf8("\r\nConnection: close\r\n\r\n"@) + encode_utf8(body@));
    }
    out
}

/// The protocol a connection speaks.
#[derive(Clone, Copy, PartialEq, Eq, Structural, Debug)]
pub enum Protocol {
    Http,
    /// FastCGI; `keep_conn` when the web server keeps the connection.
    FastCgi { keep_conn: bool },
}

/// What a worker knows of a fibre's connection when the fibre stops:
/// whether it has a connection (none in CLI mode) and its protocol, whether
/// the response head is already out (a chunked response), whether the
/// output buffer is empty, whether the connection stays open, whether
/// frames are left to run, whether the fibre has a boot checkpoint, and
/// whether a database result is already waiting for it.
#[derive(Clone, Copy, PartialEq, Eq, Structural, Debug)]
pub struct ConnState {
    pub has_stream: bool,
    pub protocol: Protocol,
    pub headers_sent: bool,
    pub output_empty: bool,
    pub keep_alive: bool,
    pub frames_left: bool,
    pub has_checkpoint: bool,
    pub db_result_ready: bool,
}

/// The response head a worker writes.
#[derive(Clone, Copy, PartialEq, Eq, Structural, Debug)]
pub enum Head {
    /// See [`finished_response_head`].
    Finished,
    /// See [`waiting_response_head`].
    Waiting,
}

/// What a worker writes when a fibre stops.
#[derive(Clone, Copy, PartialEq, Eq, Structural, Debug)]
pub enum Reply {
    Nothing,
    /// The output buffer, to standard output (CLI mode).
    Stdout,
    /// A response head, then the output buffer.
    Response(Head),
    /// The output buffer as a chunk when the flag is set (it is not
    /// empty), then the chunk that ends the response.
    LastChunks(bool),
    /// The output buffer as a chunk, after the chunked response head when
    /// the flag is set (it is not out yet, and is then marked as out).
    Chunk(bool),
    /// The output buffer as a FastCGI response.
    FastCgi,
    /// The action's text as a FastCGI error.
    FastCgiError,
    /// A `500 Internal Server Error` with the action's text as body (see
    /// [`error_response`]).
    Error500,
}

/// What becomes of the connection.
#[derive(Clone, Copy, PartialEq, Eq, Structural, Debug)]
pub enum Connection {
    /// The fibre keeps it (or has none).
    Keep,
    /// Handed back for the next request on it.
    Recycle,
    /// Flushed and dropped.
    Drop,
    /// Shut down both ways.
    Shutdown,
}

/// What of the fibre's state is reset.
#[derive(Clone, Copy, PartialEq, Eq, Structural, Debug)]
pub enum Reset {
    Keep,
    /// The output buffer is cleared.
    ClearOutput,
    /// The response (output, headers, status 200) and the autoload state
    /// are cleared, then, when the flag is set, the fibre rolls back to its
    /// boot checkpoint.
    ClearResponse(bool),
    /// The fibre rolls back to its boot checkpoint.
    ToCheckpoint,
    /// The fibre is set up afresh for the next request.
    ForNextRequest,
}

/// Where the fibre goes next.
#[derive(Clone, Copy, PartialEq, Eq, Structural, Debug)]
pub enum Next {
    /// This worker's own queue (frames are left).
    LocalQueue,
    /// The global run queue, resumed, the other workers woken.
    GlobalQueue,
    /// Registered with its reactor, to wake on I/O.
    Reactor,
    /// Parked for its database result; when the flag is set the result is
    /// already there, so it is delivered and the fibre queued at once.
    Park(bool),
    /// The action's text is compiled as an include on a thread of its own,
    /// which resumes the fibre.
    CompileInclude,
    /// The reactor's pool of checkpointed fibres.
    IdleOctane,
    /// The pool of idle fibres.
    Idle,
    /// Nowhere: the fibre is dropped.
    Dropped,
}

/// What a worker does when a fibre's run ends with some result.
pub struct WorkerAction {
    pub write: Reply,
    pub connection: Connection,
    pub reset: Reset,
    pub next: Next,
    /// The error body, or the path to include; empty otherwise.
    pub text: String,
}

/// The pool a fibre is returned to after a request: the checkpointed
/// pool when it has a boot checkpoint, rolled back to it; else the idle
/// pool, set up afresh.
pub open spec fn returned(c: ConnState) -> (Reset, Next) {
    if c.has_checkpoint {
        (Reset::ToCheckpoint, Next::IdleOctane)
    } else {
        (Reset::ForNextRequest, Next::Idle)
    }
}

/// How the whole response is written for a protocol: a chunked response
/// is ended (with the last output as a chunk), otherwise the head `h` is
/// written with the body; FastCGI gets the output as its response.
pub open spec fn complete_reply(c: ConnState, h: Head) -> Reply {
    if !c.has_stream {
        Reply::Stdout
    } else {
        match c.protocol {
            Protocol::Http => if c.headers_sent {
                Reply::LastChunks(!c.output_empty)
            } else {
                Reply::Response(h)
            },
            Protocol::FastCgi { .. } => Reply::FastCgi,
        }
    }
}

/// The worker's decision when a fibre's run ends with `res`:
/// - finished with frames left: back on the worker's queue; finished for
///   good: the response completed (finished head), the connection
///   recycled when kept alive (FastCGI: dropped, or shut down when the web
///   server does not keep it), and the fibre returned to its pool;
/// - an output flush: the output sent as a chunk (after the chunked head
///   when not out yet), cleared, and the fibre put with the idle ones;
/// - waiting on the network or the disk: registered with the reactor;
/// - waiting on the database: parked (delivered at once when the result
///   is there);
/// - an include: compiled on a thread of its own;
/// - waiting for the next HTTP request: with a connection, the response
///   completed (waiting head), the connection recycled when kept alive,
///   the response state cleared and the fibre returned to its pool; without
///   one, dropped;
/// - a generator's yield: dropped (its parent drives it);
/// - preempted: back on the global queue;
/// - an error or an uncaught exception: a `500` (or a FastCGI error) with
///   the message, the connection shut down, and the fibre returned to its
///   pool.
pub open spec fn worker_decision(res: ExecutionResult, c: ConnState) -> (Reply, Connection, Reset, Next) {
    let kept = if c.keep_alive { Connection::Recycle } else { Connection::Drop };
    match res {
        ExecutionResult::Finished => if c.frames_left {
            (Reply::Nothing, Connection::Keep, Reset::Keep, Next::LocalQueue)
        } else {
            let conn = if !c.has_stream {
                Connection::Keep
            } else {
                match c.protocol {
                    Protocol::Http => kept,
                    Protocol::FastCgi { keep_conn } => if keep_conn {
                        Connection::Drop
                    } else {
                        Connection::Shutdown
                    },
                }
            };
            (complete_reply(c, Head::Finished), conn, returned(c).0, returned(c).1)
        },
        ExecutionResult::Yielded(YieldReason::OutputFlush) => {
            let w = if !c.has_stream {
                Reply::Stdout
            } else {
                match c.protocol {
                    Protocol::Http => Reply::Chunk(!c.headers_sent),
                    Protocol::FastCgi { .. } => Reply::FastCgi,
                }
            };
            (w, Connection::Keep, Reset::ClearOutput, Next::Idle)
        },
        ExecutionResult::Yielded(YieldReason::Network) => (Reply::Nothing, Connection::Keep, Reset::Keep, Next::Reactor),
        ExecutionResult::Yielded(YieldReason::Disk) => (Reply::Nothing, Connection::Keep, Reset::Keep, Next::Reactor),
        ExecutionResult::Yielded(YieldReason::Database(_)) => (
            Reply::Nothing,
            Connection::Keep,
            Reset::Keep,
            Next::Park(c.db_result_ready),
        ),
        ExecutionResult::Yielded(YieldReason::AsyncInclude(_)) => (
            Reply::Nothing,
            Connection::Keep,
            Reset::Keep,
            Next::CompileInclude,
        ),
        ExecutionResult::Yielded(YieldReason::WaitForHttpRequest) => if !c.has_stream {
            (Reply::Nothing, Connection::Keep, Reset::Keep, Next::Dropped)
        } else {
            (
                complete_reply(c, Head::Waiting),
                kept,
                Reset::ClearResponse(c.has_checkpoint),
                if c.has_checkpoint { Next::IdleOctane } else { Next::Idle },
            )
        },
        ExecutionResult::Yielded(YieldReason::GeneratorYield) => (Reply::Nothing, Connection::Keep, Reset::Keep, Next::Dropped),
        ExecutionResult::Preempted => (Reply::Nothing, Connection::Keep, Reset::Keep, Next::GlobalQueue),
        ExecutionResult::Error(_) | ExecutionResult::UncaughtException(_) => {
            let (w, conn) = if !c.has_stream {
                (Reply::Nothing, Connection::Keep)
            } else {
                match c.protocol {
                    Protocol::Http => (Reply::Error500, Connection::Shutdown),
                    Protocol::FastCgi { .. } => (Reply::FastCgiError, Connection::Shutdown),
                }
            };
            (w, conn, returned(c).0, returned(c).1)
        },
    }
}

/// The text of the worker's action for `res`: an error's message, an
/// uncaught exception's message after `Uncaught Exception: `, the path of
/// an include; empty otherwise.
pub open spec fn worker_text(res: ExecutionResult) -> Seq<char> {
    match res {
        ExecutionResult::Error(e) => e@,
        ExecutionResult::UncaughtException(e) => "Uncaught Exception: "@ + e@,
        ExecutionResult::Yielded(YieldReason::AsyncInclude(p)) => p@,
        _ => Seq::empty(),
    }
}

/// Decides what a worker does when a fibre's run ends with `res` (see
/// [`worker_decision`] and [`worker_text`]).
pub fn worker_action(res: &ExecutionResult, conn: &ConnState) -> (r: WorkerAction)
    ensures
        (r.write, r.connection, r.reset, r.next) == worker_decision(*res, *conn),
        r.text@ == worker_text(*res),
{
    let c = *conn;
    let kept = if c.keep_alive { Connection::Recycle } else { Connection::Drop };
    let (ret_reset, ret_next) = if c.has_checkpoint {
        (Reset::ToCheckpoint, Next::IdleOctane)
    } else {
        (Reset::ForNextRequest, Next::Idle)
    };
    let complete = |h: Head| -> (w: Reply)
        ensures
            w == complete_reply(c, h),
        {
            if !c.has_stream {
                Reply::Stdout
            } else {
                match c.protocol {
                    Protocol::Http => if c.headers_sent {
                        Reply::LastChunks(!c.output_empty)
                    } else {
                        Reply::Response(h)
                    },
                    Protocol::FastCgi { .. } => Reply::FastCgi,
                }
            }
        };
    let none = |next: Next| -> (a: WorkerAction)
        ensures
            a.write == Reply::Nothing && a.connection == Connection::Keep && a.reset == Reset::Keep && a.next == next
                && a.text@ == Seq::<char>::empty(),
        { WorkerAction { write: Reply::Nothing, connection: Connection::Keep, reset: Reset::Keep, next, text: String::new() } };
    match res {
        ExecutionResult::Finished => {
            if c.frames_left {
                return none(Next::LocalQueue);
            }
            let connection = if !c.has_stream {
                Connection::Keep
            } else {
                match c.protocol {
                    Protocol::Http => kept,
                    Protocol::FastCgi { keep_conn } => if keep_conn {
                        Connection::Drop
                    } else {
                        Connection::Shutdown
                    },
                }
            };
            WorkerAction { write: complete(Head::Finished), connection, reset: ret_reset, next: ret_next, text: String::new() }
        },
        ExecutionResult::Yielded(y) => match y {
            YieldReason::OutputFlush => {
                let write = if !c.has_stream {
                    Reply::Stdout
                } else {
                    match c.protocol {
                        Protocol::Http => Reply::Chunk(!c.headers_sent),
                        Protocol::FastCgi { .. } => Reply::FastCgi,
                    }
                };
                WorkerAction { write, connection: Connection::Keep, reset: Reset::ClearOutput, next: Next::Idle, text: String::new() }
            },
            YieldReason::Network => none(Next::Reactor),
            YieldReason::Disk => none(Next::Reactor),
            YieldReason::Database(_) => none(Next::Park(c.db_result_ready)),
            YieldReason::AsyncInclude(p) => WorkerAction {
                write: Reply::Nothing,
                connection: Connection::Keep,
                reset: Reset::Keep,
                next: Next::CompileInclude,
                text: p.clone(),
            },
            YieldReason::WaitForHttpRequest => {
                if !c.has_stream {
                    return none(Next::Dropped);
                }
                WorkerAction {
                    write: complete(Head::Waiting),
                    connection: kept,
                    reset: Reset::ClearResponse(c.has_checkpoint),
                    next: if c.has_checkpoint { Next::IdleOctane } else { Next::Idle },
                    text: String::new(),
                }
            },
            YieldReason::GeneratorYield => none(Next::Dropped),
        },
        ExecutionResult::Preempted => none(Next::GlobalQueue),
        ExecutionResult::Error(e) => {
            let (write, connection) = error_reply(c);
            WorkerAction { write, connection, reset: ret_reset, next: ret_next, text: e.clone() }
        },
        ExecutionResult::UncaughtException(e) => {
            let (write, connection) = error_reply(c);
            let mut text = String::new();
            crate::throw::append(&mut text, "Uncaught Exception: ");
            crate::throw::append(&mut text, e.as_str());
            WorkerAction { write, connection, reset: ret_reset, next: ret_next, text }
        },
    }
}

fn error_reply(c: ConnState) -> (r: (Reply, Connection))
    ensures
        r == (if !c.has_stream {
            (Reply::Nothing, Connection::Keep)
        } else {
            match c.protocol {
                Protocol::Http => (Reply::Error500, Connection::Shutdown),
                Protocol::FastCgi { .. } => (Reply::FastCgiError, Connection::Shutdown),
            }
        }),
{
    if !c.has_stream {
        (Reply::Nothing, Connection::Keep)
    } else {
        match c.protocol {
            Protocol::Http => (Reply::Error500, Connection::Shutdown),
            Protocol::FastCgi { .. } => (Reply::FastCgiError, Connection::Shutdown),
        }
    }
}

} // verus!
