use vstd::prelude::*;
use vstd::utf8::encode_utf8;
use crate::names::str_equal;

verus! {

/// Whether every character of a string is ASCII.
pub open spec fn is_ascii(s: Seq<char>) -> bool {
    forall|i: int| 0 <= i < s.len() ==> (#[trigger] s[i] as u32) < 128
}

/// The ASCII upper-case form of a string, character by character.
pub open spec fn ascii_upper(s: Seq<char>) -> Seq<char> {
    s.map_values(|c: char| if 'a' <= c && c <= 'z' { ((c as u32) - 32) as char } else { c })
}

/// The full Unicode lower-case mapping of a string (`str::to_lowercase`).
pub uninterp spec fn unicode_lowercase(s: Seq<char>) -> Seq<char>;

/// `str::to_lowercase`: the string mapped to lower case by Unicode's
/// full case mapping, under which an ASCII character maps as in ASCII.
/// What it does to other characters is not stated here.
#[verifier::external_body]
pub(crate) fn to_lowercase(s: &str) -> (r: String)
    ensures
        r@ == unicode_lowercase(s@),
        is_ascii(s@) ==> r@ == crate::names::ascii_lower(s@),
{
    s.to_lowercase()
}

/// The full Unicode upper-case mapping of a string (`str::to_uppercase`).
pub uninterp spec fn unicode_uppercase(s: Seq<char>) -> Seq<char>;

/// `str::to_uppercase`: the string mapped to upper case by Unicode's full
/// case mapping, under which an ASCII character maps as in ASCII. What it
/// does to other characters is not stated here.
#[verifier::external_body]
pub(crate) fn to_uppercase(s: &str) -> (r: String)
    ensures
        r@ == unicode_uppercase(s@),
        is_ascii(s@) ==> r@ == ascii_upper(s@),
{
    s.to_uppercase()
}

/// Which engine runs a script.
#[derive(Clone, Copy, PartialEq, Eq, Structural, Debug)]
pub enum EngineType {
    Auto,
    Vm,
    Php84,
}

/// The engine a name given on the command line or in the environment
/// selects: the Hyperion VM, the Zend engine, or automatic choice for any
/// other name. Names are compared after lower-casing.
pub open spec fn engine_named(s: Seq<char>) -> EngineType {
    let l = unicode_lowercase(s);
    if l == "vm"@ || l == "hyperion"@ {
        EngineType::Vm
    } else if l == "php84"@ || l == "php"@ || l == "zend"@ || l == "c"@ {
        EngineType::Php84
    } else {
        EngineType::Auto
    }
}

impl EngineType {
    /// The engine a name selects (see [`engine_named`]).
    pub fn from_str(s: &str) -> (r: EngineType)
        ensures
            r == engine_named(s@),
    {
        let l = to_lowercase(s);
        let l = l.as_str();
        if str_equal(l, "vm") || str_equal(l, "hyperion") {
            EngineType::Vm
        } else if str_equal(l, "php84") || str_equal(l, "php") || str_equal(l, "zend") || str_equal(l, "c") {
            EngineType::Php84
        } else {
            EngineType::Auto
        }
    }
}

/// An HTTP response produced by the Zend engine's CGI output.
pub struct HttpResponse {
    pub status_code: u16,
    pub status_text: String,
    pub headers: Vec<(String, String)>,
    pub body: Vec<u8>,
}

/// The ASCII decimal digits of `n`.
pub open spec fn decimal(n: nat) -> Seq<u8>
    decreases n,
{
    if n < 10 {
        seq![(48 + n) as u8]
    } else {
        decimal(n / 10).push((48 + n % 10) as u8)
    }
}

/// Appends the ASCII decimal digits of `n`.
pub fn push_decimal(out: &mut Vec<u8>, n: u64)
    ensures
        final(out)@ == old(out)@ + decimal(n as nat),
    decreases n,
{
    if n >= 10 {
        push_decimal(out, n / 10);
    }
    let d: u8 = (n % 10) as u8;
    out.push(48 + d);
    proof {
        assert(final(out)@ =~= old(out)@ + decimal(n as nat));
    }
}

/// Whether a header name is `status` after lower-casing.
pub open spec fn is_status_header(k: Seq<char>) -> bool {
    unicode_lowercase(k) == "status"@
}

/// The header lines of a response: `Name: value` and CRLF for each header
/// but a CGI `Status` header.
pub open spec fn header_lines(headers: Seq<(String, String)>) -> Seq<u8>
    decreases headers.len(),
{
    if headers.len() == 0 {
        seq![]
    } else {
        let (k, v) = headers.last();
        let line = if is_status_header(k@) {
            seq![]
        } else {
            encode_utf8(k@) + encode_utf8(": "@) + encode_utf8(v@) + encode_utf8("\r\n"@)
        };
        header_lines(headers.drop_last()) + line
    }
}

/// Whether some header other than `Status` has the lower-cased name `name`.
pub open spec fn has_header(headers: Seq<(String, String)>, name: Seq<char>) -> bool {
    exists|i: int| 0 <= i < headers.len() && unicode_lowercase(#[trigger] headers[i].0@) == name
}

/// The bytes of a response on the wire: the status line, the headers,
/// `Content-Length`, `Server` and `Connection: close` where the headers do
/// not already have them, a blank line and the body.
pub open spec fn response_bytes(r: &HttpResponse) -> Seq<u8> {
    let h = r.headers@;
    encode_utf8("HTTP/1.1 "@) + decimal(r.status_code as nat) + encode_utf8(" "@) + encode_utf8(r.status_text@)
        + encode_utf8("\r\n"@) + header_lines(h)
        + (if has_header(h, "content-length"@) { seq![] } else {
            encode_utf8("Content-Length: "@) + decimal(r.body@.len()) + encode_utf8("\r\n"@)
        })
        + (if has_header(h, "server"@) { seq![] } else {
            encode_utf8("Server: PHP-Hyperion/1.0.0 (PHP 8.4 Hybrid SAPI)\r\n"@)
        })
        + (if has_header(h, "connection"@) { seq![] } else { encode_utf8("Connection: close\r\n"@) })
        + encode_utf8("\r\n"@) + r.body@
}

fn push_header_lines(out: &mut Vec<u8>, headers: &Vec<(String, String)>) -> (r: (bool, bool, bool))
    ensures
        final(out)@ == old(out)@ + header_lines(headers@),
        r.0 == has_header(headers@, "content-length"@),
        r.1 == has_header(headers@, "server"@),
        r.2 == has_header(headers@, "connection"@),
{
    let ghost prefix = out@;
    let mut has_content_length = false;
    let mut has_server = false;
    let mut has_connection = false;
    let mut i: usize = 0;
    while i < headers.len()
        invariant
            i <= headers@.len(),
            prefix == old(out)@,
            out@ == prefix + header_lines(headers@.take(i as int)),
            has_content_length == has_header(headers@.take(i as int), "content-length"@),
            has_server == has_header(headers@.take(i as int), "server"@),
            has_connection == has_header(headers@.take(i as int), "connection"@),
        decreases headers@.len() - i,
    {
        let ghost hs = headers@.take(i as int + 1);
        proof {
            assert(hs.drop_last() =~= headers@.take(i as int));
            assert(hs.last() == headers@[i as int]);
        }
        let k = headers[i].0.as_str();
        let v = headers[i].1.as_str();
        let lower = to_lowercase(k);
        let lower = lower.as_str();
        proof {
            reveal_strlit("content-length");
            reveal_strlit("server");
            reveal_strlit("connection");
            assert("content-length"@[0] != "server"@[0]);
            assert("content-length"@.len() != "connection"@.len());
            assert("content-length"@ != "server"@);
            assert("content-length"@ != "connection"@);
            assert("server"@ != "connection"@);
        }
        if str_equal(lower, "content-length") {
            has_content_length = true;
        } else if str_equal(lower, "server") {
            has_server = true;
        } else if str_equal(lower, "connection") {
            has_connection = true;
        }
        proof {
            assert forall|w: Seq<char>|
                has_header(hs, w) == (has_header(headers@.take(i as int), w) || unicode_lowercase(k@) == w) by {
                if has_header(hs, w) {
                    let j = choose|j: int| 0 <= j < hs.len() && unicode_lowercase(#[trigger] hs[j].0@) == w;
                    if j < i {
                        assert(headers@.take(i as int)[j] == hs[j]);
                    }
                }
                if has_header(headers@.take(i as int), w) {
                    let j = choose|j: int| 0 <= j < i && unicode_lowercase(#[trigger] headers@.take(i as int)[j].0@) == w;
                    assert(hs[j] == headers@.take(i as int)[j]);
                }
                if unicode_lowercase(k@) == w {
                    assert(hs[i as int].0@ == k@);
                }
            }
        }
        if !str_equal(lower, "status") {
            out.extend_from_slice(k.as_bytes());
            out.extend_from_slice(": ".as_bytes());
            out.extend_from_slice(v.as_bytes());
            out.extend_from_slice("\r\n".as_bytes());
        }
        proof {
            assert(out@ =~= prefix + header_lines(hs));
        }
        i = i + 1;
    }
    proof {
        assert(headers@.take(headers@.len() as int) =~= headers@);
    }
    (has_content_length, has_server, has_connection)
}

impl HttpResponse {
    /// A response with the given status, headers and body.
    pub fn new(status_code: u16, status_text: &str, headers: Vec<(String, String)>, body: Vec<u8>) -> (r: Self)
        ensures
            r.status_code == status_code,
            r.status_text@ == status_text@,
            r.headers == headers,
            r.body == body,
    {
        HttpResponse { status_code, status_text: status_text.to_owned(), headers, body }
    }

    /// The response as HTTP/1.1 bytes (see [`response_bytes`]).
    pub fn to_http_bytes(&self) -> (r: Vec<u8>)
        ensures
            r@ == response_bytes(self),
    {
        let mut out: Vec<u8> = Vec::new();
        out.extend_from_slice("HTTP/1.1 ".as_bytes());
        push_decimal(&mut out, self.status_code as u64);
        out.extend_from_slice(" ".as_bytes());
        out.extend_from_slice(self.status_text.as_str().as_bytes());
        out.extend_from_slice("\r\n".as_bytes());
        let (has_content_length, has_server, has_connection) = push_header_lines(&mut out, &self.headers);
        if !has_content_length {
            out.extend_from_slice("Content-Length: ".as_bytes());
            push_decimal(&mut out, self.body.len() as u64);
            out.extend_from_slice("\r\n".as_bytes());
        }
        if !has_server {
            out.extend_from_slice("Server: PHP-Hyperion/1.0.0 (PHP 8.4 Hybrid SAPI)\r\n".as_bytes());
        }
        if !has_connection {
            out.extend_from_slice("Connection: close\r\n".as_bytes());
        }
        out.extend_from_slice("\r\n".as_bytes());
        out.extend_from_slice(self.body.as_slice());
        proof {
            assert(out@ =~= response_bytes(self));
        }
        out
    }
}

} // verus!
