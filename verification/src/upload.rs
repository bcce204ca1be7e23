//! Uploading an internal test report over plain HTTP: the endpoint URL, the
//! request head, and the reading of the server's answer. The connection
//! itself is made by the caller.

use vstd::prelude::*;
use crate::text::{is_unicode_whitespace, is_whitespace, push_decimal, push_str, spec_decimal, spec_trim, trim};

verus! {

/// Seconds a connection may stall before the upload fails.
pub const UPLOAD_TIMEOUT_SECONDS: u64 = 20;

/// Why a text is not a `u16`, as `str::parse` tells it.
#[derive(Clone, Copy, Debug, PartialEq, Eq, Structural)]
pub enum IntParseError {
    Empty,
    InvalidDigit,
    PosOverflow,
}

impl IntParseError {
    pub open spec fn spec_message(self) -> Seq<char> {
        match self {
            IntParseError::Empty => "cannot parse integer from empty string"@,
            IntParseError::InvalidDigit => "invalid digit found in string"@,
            IntParseError::PosOverflow => "number too large to fit in target type"@,
        }
    }

    /// The error's text.
    pub fn message(self) -> (s: &'static str)
        ensures
            s@ == self.spec_message(),
    {
        match self {
            IntParseError::Empty => "cannot parse integer from empty string",
            IntParseError::InvalidDigit => "invalid digit found in string",
            IntParseError::PosOverflow => "number too large to fit in target type",
        }
    }
}

/// Reads decimal digits left to right onto `acc`: a non-digit is an invalid
/// digit, and passing `u16::MAX` an overflow, whichever comes first.
pub open spec fn spec_parse_digits(acc: int, s: Seq<char>) -> Result<u16, IntParseError>
    decreases s.len(),
{
    if s.len() == 0 {
        Ok(acc as u16)
    } else if !('0' <= s[0] && s[0] <= '9') {
        Err(IntParseError::InvalidDigit)
    } else {
        let next = acc * 10 + (s[0] as int - '0' as int);
        if next > u16::MAX {
            Err(IntParseError::PosOverflow)
        } else {
            spec_parse_digits(next, s.drop_first())
        }
    }
}

/// `str::parse::<u16>`: an optional `+`, then decimal digits.
pub open spec fn spec_parse_u16(s: Seq<char>) -> Result<u16, IntParseError> {
    if s.len() == 0 {
        Err(IntParseError::Empty)
    } else if s[0] == '+' {
        if s.len() == 1 { Err(IntParseError::InvalidDigit) } else { spec_parse_digits(0, s.drop_first()) }
    } else {
        spec_parse_digits(0, s)
    }
}

/// Parses a `u16` as `str::parse` does.
pub fn parse_u16(s: &str) -> (r: Result<u16, IntParseError>)
    ensures
        r == spec_parse_u16(s@),
{
    let n = s.unicode_len();
    if n == 0 {
        return Err(IntParseError::Empty);
    }
    let mut i: usize = 0;
    if s.get_char(0) == '+' {
        if n == 1 {
            return Err(IntParseError::InvalidDigit);
        }
        i = 1;
    }
    let ghost digits = s@.subrange(i as int, n as int);
    proof {
        if i == 1 {
            assert(digits == s@.drop_first());
        } else {
            assert(digits == s@);
        }
    }
    let mut acc: u32 = 0;
    while i < n
        invariant
            n == s@.len(),
            i <= n,
            acc <= u16::MAX,
            spec_parse_u16(s@) == spec_parse_digits(0, digits),
            spec_parse_digits(0, digits) == spec_parse_digits(acc as int, s@.subrange(i as int, n as int)),
        decreases n - i,
    {
        let c = s.get_char(i);
        proof {
            let rest = s@.subrange(i as int, n as int);
            assert(rest[0] == c);
            assert(rest.drop_first() == s@.subrange(i + 1, n as int));
        }
        if !('0' <= c && c <= '9') {
            return Err(IntParseError::InvalidDigit);
        }
        let next: u32 = acc * 10 + (c as u32 - '0' as u32);
        if next > 65535 {
            return Err(IntParseError::PosOverflow);
        }
        acc = next;
        i = i + 1;
    }
    proof {
        assert(s@.subrange(n as int, n as int).len() == 0);
    }
    Ok(acc as u16)
}

/// Why an upload endpoint was refused.
#[derive(Clone, Debug, PartialEq, Eq)]
pub enum UploadError {
    UnsupportedUploadEndpoint,
    InvalidUploadEndpoint(String),
    UploadRejected { status_code: u16, body: String },
}

/// An `http://` upload endpoint: where to connect, what to send as `Host`,
/// and the request path.
#[derive(Clone, Debug, PartialEq, Eq)]
pub struct HttpEndpoint {
    pub host: String,
    pub host_header: String,
    pub port: u16,
    pub path: String,
}

/// The first position of `c` in `s`.
pub open spec fn spec_find(s: Seq<char>, c: char) -> Option<int>
    decreases s.len(),
{
    if s.len() == 0 {
        None
    } else if s[0] == c {
        Some(0)
    } else {
        match spec_find(s.drop_first(), c) {
            Some(k) => Some(k + 1),
            None => None,
        }
    }
}

/// The last position of `c` in `s`.
pub open spec fn spec_rfind(s: Seq<char>, c: char) -> Option<int>
    decreases s.len(),
{
    if s.len() == 0 {
        None
    } else if s.last() == c {
        Some(s.len() - 1)
    } else {
        spec_rfind(s.drop_last(), c)
    }
}

proof fn lemma_find(s: Seq<char>, c: char)
    ensures
        spec_find(s, c) matches Some(k) ==> 0 <= k < s.len() && s[k] == c && forall|j: int| 0 <= j < k ==> s[j] != c,
        spec_find(s, c) is None ==> forall|j: int| 0 <= j < s.len() ==> s[j] != c,
    decreases s.len(),
{
    if s.len() > 0 {
        lemma_find(s.drop_first(), c);
        if s[0] != c {
            assert forall|j: int| 0 < j < s.len() implies s[j] == s.drop_first()[j - 1] by {}
        }
    }
}

proof fn lemma_rfind(s: Seq<char>, c: char)
    ensures
        spec_rfind(s, c) matches Some(k) ==> 0 <= k < s.len() && s[k] == c && forall|j: int| k < j < s.len() ==> s[j] != c,
        spec_rfind(s, c) is None ==> forall|j: int| 0 <= j < s.len() ==> s[j] != c,
    decreases s.len(),
{
    if s.len() > 0 {
        lemma_rfind(s.drop_last(), c);
        if s.last() != c {
            assert forall|j: int| 0 <= j < s.len() - 1 implies s[j] == s.drop_last()[j] by {}
        }
    }
}

fn find_char(s: &str, c: char) -> (r: Option<usize>)
    ensures
        match r {
            Some(k) => spec_find(s@, c) == Some(k as int),
            None => spec_find(s@, c) is None,
        },
{
    proof {
        lemma_find(s@, c);
    }
    let n = s.unicode_len();
    let mut i: usize = 0;
    while i < n
        invariant
            n == s@.len(),
            i <= n,
            forall|j: int| 0 <= j < i ==> s@[j] != c,
        decreases n - i,
    {
        if s.get_char(i) == c {
            proof {
                lemma_find(s@, c);
                match spec_find(s@, c) {
                    Some(k) => {
                        if k < i {
                            assert(s@[k] != c);
                        } else if k > i {
                            assert(s@[i as int] != c);
                        }
                    },
                    None => {
                        assert(s@[i as int] != c);
                    },
                }
            }
            return Some(i);
        }
        i = i + 1;
    }
    proof {
        lemma_find(s@, c);
        if spec_find(s@, c) is Some {
            assert(s@[spec_find(s@, c)->Some_0] != c);
        }
    }
    None
}

fn rfind_char(s: &str, c: char) -> (r: Option<usize>)
    ensures
        match r {
            Some(k) => spec_rfind(s@, c) == Some(k as int),
            None => spec_rfind(s@, c) is None,
        },
{
    let n = s.unicode_len();
    let mut i: usize = n;
    while i > 0
        invariant
            n == s@.len(),
            i <= n,
            forall|j: int| i <= j < n ==> s@[j] != c,
        decreases i,
    {
        if s.get_char(i - 1) == c {
            proof {
                lemma_rfind(s@, c);
                match spec_rfind(s@, c) {
                    Some(k) => {
                        if k < i - 1 {
                            assert(s@[i - 1] != c);
                        } else if k > i - 1 {
                            assert(s@[k] != c);
                        }
                    },
                    None => {
                        assert(s@[i - 1] != c);
                    },
                }
            }
            return Some(i - 1);
        }
        i = i - 1;
    }
    proof {
        lemma_rfind(s@, c);
        if spec_rfind(s@, c) is Some {
            assert(s@[spec_rfind(s@, c)->Some_0] != c);
        }
    }
    None
}

/// What an endpoint URL reads as: host, `Host` header, port and path; or
/// `None` for an unsupported scheme, or the reason it is invalid.
pub open spec fn spec_parse_endpoint(value: Seq<char>) -> Result<(Seq<char>, Seq<char>, u16, Seq<char>), Option<Seq<char>>> {
    let t = spec_trim(value);
    let scheme = "http://"@;
    if t.len() < scheme.len() || t.take(scheme.len() as int) != scheme {
        Err(None)
    } else {
        let rest = t.skip(scheme.len() as int);
        let authority = match spec_find(rest, '/') {
            Some(k) => rest.take(k),
            None => rest,
        };
        let path = match spec_find(rest, '/') {
            Some(k) => rest.skip(k),
            None => "/"@,
        };
        if authority.len() == 0 {
            Err(Some("host is required"@))
        } else {
            match spec_rfind(authority, ':') {
                None => Ok((authority, authority, 80, path)),
                Some(j) => {
                    let host = authority.take(j);
                    if host.len() == 0 {
                        Err(Some("host is required"@))
                    } else {
                        match spec_parse_u16(authority.skip(j + 1)) {
                            Ok(port) => Ok((host, authority, port, path)),
                            Err(e) => Err(Some(e.spec_message())),
                        }
                    }
                },
            }
        }
    }
}

/// `r` is what `spec` describes.
pub open spec fn spec_endpoint_result(
    r: Result<HttpEndpoint, UploadError>,
    spec: Result<(Seq<char>, Seq<char>, u16, Seq<char>), Option<Seq<char>>>,
) -> bool {
    match (r, spec) {
        (Ok(e), Ok(v)) => e.host@ == v.0 && e.host_header@ == v.1 && e.port == v.2 && e.path@ == v.3,
        (Err(UploadError::UnsupportedUploadEndpoint), Err(None)) => true,
        (Err(UploadError::InvalidUploadEndpoint(m)), Err(Some(t))) => m@ == t,
        _ => false,
    }
}

fn invalid(message: &str) -> (e: UploadError)
    ensures
        e matches UploadError::InvalidUploadEndpoint(m) && m@ == message@,
{
    UploadError::InvalidUploadEndpoint(String::from_str(message))
}

impl HttpEndpoint {
    /// Parses an `http://host[:port][/path]` URL; surrounding white space
    /// is ignored, the port defaults to 80 and the path to `/`.
    pub fn parse(value: &str) -> (r: Result<HttpEndpoint, UploadError>)
        ensures
            spec_endpoint_result(r, spec_parse_endpoint(value@)),
    {
        let trimmed = trim(value);
        let t = trimmed.as_str();
        let n = t.unicode_len();
        proof {
            reveal_strlit("http://");
            reveal_strlit("/");
            reveal_strlit("host is required");
        }
        if n < 7 {
            return Err(UploadError::UnsupportedUploadEndpoint);
        }
        let head = t.substring_char(0, 7);
        if !crate::text::same_text(head, "http://") {
            proof {
                assert(t@.take(7) == head@);
            }
            return Err(UploadError::UnsupportedUploadEndpoint);
        }
        proof {
            assert(t@.take(7) == head@);
        }
        let rest = t.substring_char(7, n);
        let rn = rest.unicode_len();
        proof {
            lemma_find(rest@, '/');
        }
        let (authority, path) = match find_char(rest, '/') {
            Some(k) => (rest.substring_char(0, k), rest.substring_char(k, rn)),
            None => (rest, "/"),
        };
        proof {
            assert(rest@ == t@.skip(7));
        }
        let an = authority.unicode_len();
        if an == 0 {
            return Err(invalid("host is required"));
        }
        match rfind_char(authority, ':') {
            None => Ok(HttpEndpoint {
                host: String::from_str(authority),
                host_header: String::from_str(authority),
                port: 80,
                path: String::from_str(path),
            }),
            Some(j) => {
                proof {
                    lemma_rfind(authority@, ':');
                }
                let host = authority.substring_char(0, j);
                if host.unicode_len() == 0 {
                    return Err(invalid("host is required"));
                }
                let port_text = authority.substring_char(j + 1, an);
                match parse_u16(port_text) {
                    Ok(port) => Ok(HttpEndpoint {
                        host: String::from_str(host),
                        host_header: String::from_str(authority),
                        port,
                        path: String::from_str(path),
                    }),
                    Err(e) => Err(invalid(e.message())),
                }
            },
        }
    }
}

/// The head of the upload request.
pub open spec fn spec_request_head(
    path: Seq<char>,
    host_header: Seq<char>,
    token: Seq<char>,
    body_len: nat,
    report_id: Seq<char>,
    test_run_id: Seq<char>,
) -> Seq<char> {
    "POST "@ + path + " HTTP/1.1\r\nHost: "@ + host_header + "\r\nAuthorization: Bearer "@ + token
        + "\r\nContent-Type: application/zip\r\nContent-Length: "@ + spec_decimal(body_len)
        + "\r\nConnection: close\r\nX-Basement-Bridge-Report-Id: "@ + report_id
        + "\r\nX-Basement-Bridge-Test-Run-Id: "@ + test_run_id + "\r\n\r\n"@
}

/// The head of the request that posts a zip of `body_len` bytes.
pub fn upload_request_head(
    endpoint: &HttpEndpoint,
    token: &str,
    body_len: usize,
    report_id: &str,
    test_run_id: &str,
) -> (head: String)
    ensures
        head@ == spec_request_head(endpoint.path@, endpoint.host_header@, token@, body_len as nat, report_id@, test_run_id@),
{
    let mut out = String::new();
    push_str(&mut out, "POST ");
    push_str(&mut out, endpoint.path.as_str());
    push_str(&mut out, " HTTP/1.1\r\nHost: ");
    push_str(&mut out, endpoint.host_header.as_str());
    push_str(&mut out, "\r\nAuthorization: Bearer ");
    push_str(&mut out, token);
    push_str(&mut out, "\r\nContent-Type: application/zip\r\nContent-Length: ");
    push_decimal(&mut out, body_len as u128);
    push_str(&mut out, "\r\nConnection: close\r\nX-Basement-Bridge-Report-Id: ");
    push_str(&mut out, report_id);
    push_str(&mut out, "\r\nX-Basement-Bridge-Test-Run-Id: ");
    push_str(&mut out, test_run_id);
    push_str(&mut out, "\r\n\r\n");
    out
}


/// What the server answered to an accepted upload.
#[derive(Clone, Debug, PartialEq, Eq)]
pub struct InternalTestUploadReceipt {
    pub status_code: u16,
    pub response_body: String,
}

/// The first position of `pat` in `s`.
pub open spec fn spec_find_seq(s: Seq<char>, pat: Seq<char>) -> Option<int>
    decreases s.len(),
{
    if s.len() < pat.len() {
        None
    } else if s.take(pat.len() as int) == pat {
        Some(0)
    } else if s.len() == 0 {
        None
    } else {
        match spec_find_seq(s.drop_first(), pat) {
            Some(k) => Some(k + 1),
            None => None,
        }
    }
}

proof fn lemma_find_seq(s: Seq<char>, pat: Seq<char>, k: int)
    requires
        spec_find_seq(s, pat) == Some(k),
    ensures
        0 <= k,
        k + pat.len() <= s.len(),
    decreases s.len(),
{
    if s.len() >= pat.len() && s.take(pat.len() as int) != pat && s.len() > 0 {
        lemma_find_seq(s.drop_first(), pat, k - 1);
    }
}

/// The number of leading white-space characters of `s`.
pub open spec fn spec_ws_len(s: Seq<char>) -> nat
    decreases s.len(),
{
    if s.len() > 0 && is_unicode_whitespace(s[0]) { 1 + spec_ws_len(s.drop_first()) } else { 0 }
}

/// The number of leading characters of `s` that are not white space.
pub open spec fn spec_word_len(s: Seq<char>) -> nat
    decreases s.len(),
{
    if s.len() > 0 && !is_unicode_whitespace(s[0]) { 1 + spec_word_len(s.drop_first()) } else { 0 }
}

proof fn lemma_ws_len(s: Seq<char>)
    ensures
        spec_ws_len(s) <= s.len(),
        spec_word_len(s) <= s.len(),
    decreases s.len(),
{
    if s.len() > 0 {
        lemma_ws_len(s.drop_first());
    }
}

/// The second white-space separated word of `line`, if it has one.
pub open spec fn spec_second_word(line: Seq<char>) -> Option<Seq<char>> {
    let a = line.skip(spec_ws_len(line) as int);
    let b = a.skip(spec_word_len(a) as int);
    let c = b.skip(spec_ws_len(b) as int);
    if a.len() == 0 || c.len() == 0 { None } else { Some(c.take(spec_word_len(c) as int)) }
}

/// The status code and trimmed body of an HTTP response, or why it cannot be read.
pub open spec fn spec_parse_response(response: Seq<char>) -> Result<(u16, Seq<char>), Seq<char>> {
    let (headers, body) = spec_split_response(response);
    if headers.len() == 0 {
        Err("empty HTTP response"@)
    } else {
        match spec_second_word(spec_first_line(headers)) {
            None => Err("missing HTTP status"@),
            Some(word) => match spec_parse_u16(word) {
                Err(e) => Err(e.spec_message()),
                Ok(status) => Ok((status, spec_trim(body))),
            },
        }
    }
}

fn skip_ws(s: &str, from: usize) -> (r: usize)
    requires
        from <= s@.len(),
    ensures
        r == from + spec_ws_len(s@.skip(from as int)),
        r <= s@.len(),
{
    let n = s.unicode_len();
    let mut i = from;
    proof {
        lemma_ws_len(s@.skip(from as int));
    }
    while i < n && is_whitespace(s.get_char(i))
        invariant
            n == s@.len(),
            from <= i <= n,
            spec_ws_len(s@.skip(from as int)) == (i - from) + spec_ws_len(s@.skip(i as int)),
        decreases n - i,
    {
        proof {
            assert(s@.skip(i as int).drop_first() == s@.skip(i + 1));
        }
        i = i + 1;
    }
    i
}

fn skip_word(s: &str, from: usize) -> (r: usize)
    requires
        from <= s@.len(),
    ensures
        r == from + spec_word_len(s@.skip(from as int)),
        r <= s@.len(),
{
    let n = s.unicode_len();
    let mut i = from;
    proof {
        lemma_ws_len(s@.skip(from as int));
    }
    while i < n && !is_whitespace(s.get_char(i))
        invariant
            n == s@.len(),
            from <= i <= n,
            spec_word_len(s@.skip(from as int)) == (i - from) + spec_word_len(s@.skip(i as int)),
        decreases n - i,
    {
        proof {
            assert(s@.skip(i as int).drop_first() == s@.skip(i + 1));
        }
        i = i + 1;
    }
    i
}

fn find_text(s: &str, pat: &str) -> (r: Option<usize>)
    requires
        pat@.len() > 0,
    ensures
        match r {
            Some(k) => spec_find_seq(s@, pat@) == Some(k as int),
            None => spec_find_seq(s@, pat@) is None,
        },
{
    let n = s.unicode_len();
    let m = pat.unicode_len();
    let mut i: usize = 0;
    proof {
        assert(s@.skip(0) == s@);
    }
    while i < n && m <= n - i
        invariant
            n == s@.len(),
            m == pat@.len(),
            i <= n,
            spec_find_seq(s@, pat@) == match spec_find_seq(s@.skip(i as int), pat@) {
                Some(k) => Some(k + i),
                None => None::<int>,
            },
        decreases n - i,
    {
        let window = s.substring_char(i, i + m);
        proof {
            assert(s@.skip(i as int).take(m as int) == window@);
            assert(s@.skip(i as int).drop_first() == s@.skip(i + 1));
        }
        if crate::text::same_text(window, pat) {
            return Some(i);
        }
        i = i + 1;
    }
    proof {
        assert(s@.skip(i as int).len() < pat@.len());
    }
    None
}

/// The head (before the first blank line) and the body of a response.
pub open spec fn spec_split_response(response: Seq<char>) -> (Seq<char>, Seq<char>) {
    match spec_find_seq(response, "\r\n\r\n"@) {
        Some(i) => (response.take(i), response.skip(i + 4)),
        None => (response, Seq::empty()),
    }
}

fn split_response(response: &str) -> (r: (&str, &str))
    ensures
        r.0@ == spec_split_response(response@).0,
        r.1@ == spec_split_response(response@).1,
{
    proof {
        reveal_strlit("\r\n\r\n");
        reveal_strlit("");
    }
    let n = response.unicode_len();
    match find_text(response, "\r\n\r\n") {
        Some(i) => {
            proof {
                lemma_find_seq(response@, "\r\n\r\n"@, i as int);
            }
            (response.substring_char(0, i), response.substring_char(i + 4, n))
        },
        None => (response, ""),
    }
}

/// The first line of `headers`.
pub open spec fn spec_first_line(headers: Seq<char>) -> Seq<char> {
    match spec_find(headers, '\n') {
        Some(k) => headers.take(k),
        None => headers,
    }
}

fn first_line(headers: &str) -> (line: &str)
    ensures
        line@ == spec_first_line(headers@),
{
    proof {
        lemma_find(headers@, '\n');
    }
    match find_char(headers, '\n') {
        Some(k) => headers.substring_char(0, k),
        None => headers,
    }
}

fn second_word(line: &str) -> (r: Option<&str>)
    ensures
        match (r, spec_second_word(line@)) {
            (Some(w), Some(v)) => w@ == v,
            (None, None) => true,
            _ => false,
        },
{
    let a = skip_ws(line, 0);
    let b = skip_word(line, a);
    let c = skip_ws(line, b);
    let ln = line.unicode_len();
    proof {
        assert(line@.skip(0) == line@);
        assert(line@.skip(a as int).skip(spec_word_len(line@.skip(a as int)) as int) == line@.skip(b as int));
        assert(line@.skip(b as int).skip(spec_ws_len(line@.skip(b as int)) as int) == line@.skip(c as int));
    }
    if a == ln || c == ln {
        return None;
    }
    let d = skip_word(line, c);
    let word = line.substring_char(c, d);
    proof {
        assert(line@.skip(c as int).take(spec_word_len(line@.skip(c as int)) as int) == word@);
    }
    Some(word)
}

/// Reads the status code and trimmed body of an HTTP response.
pub fn parse_http_response(response: &str) -> (r: Result<(u16, String), UploadError>)
    ensures
        match (r, spec_parse_response(response@)) {
            (Ok((code, body)), Ok((c, b))) => code == c && body@ == b,
            (Err(UploadError::InvalidUploadEndpoint(m)), Err(t)) => m@ == t,
            _ => false,
        },
{
    proof {
        reveal_strlit("empty HTTP response");
        reveal_strlit("missing HTTP status");
    }
    let (headers, body) = split_response(response);
    if headers.unicode_len() == 0 {
        return Err(invalid("empty HTTP response"));
    }
    let line = first_line(headers);
    match second_word(line) {
        None => Err(invalid("missing HTTP status")),
        Some(word) => match parse_u16(word) {
            Err(e) => Err(invalid(e.message())),
            Ok(status) => Ok((status, trim(body))),
        },
    }
}

/// An answer in the 2xx range is a receipt; any other is a rejection.
pub fn upload_receipt(status_code: u16, response_body: String) -> (r: Result<InternalTestUploadReceipt, UploadError>)
    ensures
        200 <= status_code < 300 ==> (r matches Ok(receipt) && receipt.status_code == status_code && receipt.response_body@ == response_body@),
        !(200 <= status_code < 300) ==> (r matches Err(UploadError::UploadRejected { status_code: c, body }) && c == status_code && body@ == response_body@),
{
    if 200 <= status_code && status_code < 300 {
        Ok(InternalTestUploadReceipt { status_code, response_body })
    } else {
        Err(UploadError::UploadRejected { status_code, body: response_body })
    }
}

} // verus!
