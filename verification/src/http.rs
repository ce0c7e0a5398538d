//! Framing of the device's HTTP/1.1 responses. The embedded "SHIP 2.0" server
//! is case-sensitive on request headers, so requests are written by hand; this
//! module holds the parts that decide: where the head ends, how long the body
//! is, and what status and session cookie a response carries.

use vstd::prelude::*;
use vstd::string::StringExecFns;

use crate::error::TapoError;
use crate::text::{
    decimal, decimal_spec,
    spec_utf8_lossy, string_opt_view, utf8_lossy,
    chars_of, eq_ignore_ascii_case, find_char, find_char_from, parse_unsigned,
    parse_unsigned_spec, range_eq_ignore_ascii_case, range_starts_with, rfind_char,
    rfind_char_from, skip_non_ws, skip_non_ws_from, skip_ws, skip_ws_from, sub_chars, substring,
    trim_bounds, trim_spec,
};

verus! {

/// A parsed HTTP response: status code, the `TP_SESSIONID=...` cookie if one
/// was set, and the body bytes.
pub struct RawResponse {
    pub status: u16,
    pub set_cookie: Option<String>,
    pub body: Vec<u8>,
}

/// `needle` occurs in `hay` at index `i`.
pub open spec fn occurs_at(hay: Seq<u8>, needle: Seq<u8>, i: int) -> bool {
    0 <= i && i + needle.len() <= hay.len() && hay.subrange(i, i + needle.len()) == needle
}

/// The first index at or after `i` where `needle` occurs in `hay`.
pub open spec fn find_bytes_from(hay: Seq<u8>, needle: Seq<u8>, i: int) -> Option<int>
    decreases hay.len() + 1 - i,
{
    if i < 0 || i + needle.len() > hay.len() {
        None
    } else if occurs_at(hay, needle, i) {
        Some(i)
    } else {
        find_bytes_from(hay, needle, i + 1)
    }
}

pub proof fn lemma_find_bytes(hay: Seq<u8>, needle: Seq<u8>, i: int)
    requires
        0 <= i,
    ensures
        match find_bytes_from(hay, needle, i) {
            Some(k) => i <= k && occurs_at(hay, needle, k) && forall|j: int|
                i <= j < k ==> !#[trigger] occurs_at(hay, needle, j),
            None => forall|j: int| i <= j ==> !#[trigger] occurs_at(hay, needle, j),
        },
    decreases hay.len() + 1 - i,
{
    if i + needle.len() > hay.len() {
    } else if occurs_at(hay, needle, i) {
    } else {
        lemma_find_bytes(hay, needle, i + 1);
    }
}

/// The index of the first occurrence of `needle` in `hay`.
pub fn find_subslice(hay: &[u8], needle: &[u8]) -> (r: Option<usize>)
    requires
        needle@.len() > 0,
    ensures
        match r {
            Some(i) => find_bytes_from(hay@, needle@, 0) == Some(i as int),
            None => find_bytes_from(hay@, needle@, 0) is None,
        },
{
    let n = needle.len();
    let len = hay.len();
    let mut i: usize = 0;
    while i <= len && n <= len - i
        invariant
            n == needle@.len(),
            len == hay@.len(),
            find_bytes_from(hay@, needle@, i as int) == find_bytes_from(hay@, needle@, 0),
        decreases hay@.len() - i,
    {
        let mut k: usize = 0;
        let mut same = true;
        while k < n
            invariant
                i + n <= len,
                len == hay@.len(),
                n == needle@.len(),
                k <= n,
                same == (forall|j: int| 0 <= j < k ==> #[trigger] hay@[i + j] == needle@[j]),
            decreases n - k,
        {
            if hay[i + k] != needle[k] {
                same = false;
            }
            k = k + 1;
        }
        proof {
            let w = hay@.subrange(i as int, i + n);
            if same {
                assert forall|j: int| 0 <= j < n implies #[trigger] w[j] == needle@[j] by {
                    assert(hay@[i + j] == needle@[j]);
                }
                assert(w =~= needle@);
            } else {
                let j = choose|j: int| 0 <= j < k && #[trigger] hay@[i + j] != needle@[j];
                assert(w[j] == hay@[i + j]);
            }
        }
        if same {
            return Some(i);
        }
        i = i + 1;
    }
    None
}

/// The header/body separator `\r\n\r\n`.
pub open spec fn head_separator() -> Seq<u8> {
    seq![13u8, 10u8, 13u8, 10u8]
}

fn separator() -> (r: Vec<u8>)
    ensures
        r@ == head_separator(),
{
    let r = vec![13u8, 10u8, 13u8, 10u8];
    assert(r@ =~= head_separator());
    r
}

/// Where the response head ends: the index of the first `\r\n\r\n`.
pub fn head_end(buf: &[u8]) -> (r: Option<usize>)
    ensures
        match r {
            Some(i) => find_bytes_from(buf@, head_separator(), 0) == Some(i as int),
            None => find_bytes_from(buf@, head_separator(), 0) is None,
        },
{
    let sep = separator();
    find_subslice(buf, sep.as_slice())
}

/// `host` split at its last `:` into name and port; when there is no `:` or
/// the part after it is not a `u16`, the whole `host` and port 80.
pub open spec fn split_host_port_spec(h: Seq<char>) -> (Seq<char>, nat) {
    match rfind_char_from(h, ':', h.len() as int) {
        Some(i) => match parse_unsigned_spec(h.subrange(i + 1, h.len() as int), 65535) {
            Some(p) => (h.subrange(0, i), p),
            None => (h, 80),
        },
        None => (h, 80),
    }
}

/// Splits `host[:port]` into host name and port (80 by default).
pub fn split_host_port(host: &str) -> (r: (String, u16))
    ensures
        r.0@ == split_host_port_spec(host@).0,
        r.1 as nat == split_host_port_spec(host@).1,
{
    let cs = chars_of(host);
    match rfind_char(&cs, ':') {
        Some(i) => match parse_unsigned(&cs, i + 1, cs.len(), 65535) {
            Some(p) => (substring(host, 0, i), p as u16),
            None => (String::from_str(host), 80),
        },
        None => (String::from_str(host), 80),
    }
}

/// A `\r\n` starts at index `i` of `t`.
pub open spec fn crlf_at(t: Seq<char>, i: int) -> bool {
    0 <= i && i + 1 < t.len() && t[i] == '\r' && t[i + 1] == '\n'
}

/// The end of the line that starts at `i`: the index of the next `\r\n`, or
/// the length (lines as `str::split("\r\n")` yields them).
pub open spec fn line_end_from(t: Seq<char>, i: int) -> int
    decreases t.len() - i,
{
    if 0 <= i < t.len() && !crlf_at(t, i) {
        line_end_from(t, i + 1)
    } else {
        i
    }
}

pub proof fn lemma_line_end(t: Seq<char>, i: int)
    requires
        0 <= i <= t.len(),
    ensures
        i <= line_end_from(t, i) <= t.len(),
        line_end_from(t, i) < t.len() ==> crlf_at(t, line_end_from(t, i)),
    decreases t.len() - i,
{
    if i < t.len() && !crlf_at(t, i) {
        lemma_line_end(t, i + 1);
    }
}

/// The end of the line of `t` that starts at `i`.
pub fn line_end(t: &Vec<char>, i: usize) -> (r: usize)
    requires
        i <= t@.len(),
    ensures
        r == line_end_from(t@, i as int),
        i <= r <= t@.len(),
        r < t@.len() ==> r + 2 <= t@.len(),
{
    proof {
        lemma_line_end(t@, i as int);
    }
    let mut k = i;
    while k < t.len() && !(k + 1 < t.len() && t[k] == '\r' && t[k + 1] == '\n')
        invariant
            i <= k <= t@.len(),
            line_end_from(t@, k as int) == line_end_from(t@, i as int),
        decreases t@.len() - k,
    {
        k = k + 1;
    }
    k
}

/// The second whitespace-separated token of `s` (`split_whitespace().nth(1)`).
pub open spec fn second_token(s: Seq<char>) -> Option<Seq<char>> {
    let a0 = skip_ws_from(s, 0);
    let e0 = skip_non_ws_from(s, a0);
    let a1 = skip_ws_from(s, e0);
    let e1 = skip_non_ws_from(s, a1);
    if a0 < s.len() && a1 < s.len() {
        Some(s.subrange(a1, e1))
    } else {
        None
    }
}

/// The status code of a status line: its second token read as a `u16`.
pub open spec fn status_of_line(line: Seq<char>) -> Option<nat> {
    match second_token(line) {
        Some(tok) => parse_unsigned_spec(tok, 65535),
        None => None,
    }
}

/// The status code of a status line.
pub fn parse_status_line(line: &Vec<char>) -> (r: Option<u16>)
    ensures
        match r {
            Some(v) => status_of_line(line@) == Some(v as nat),
            None => status_of_line(line@) is None,
        },
{
    let a0 = skip_ws(line, 0);
    let e0 = skip_non_ws(line, a0);
    let a1 = skip_ws(line, e0);
    let e1 = skip_non_ws(line, a1);
    if a0 < line.len() && a1 < line.len() {
        match parse_unsigned(line, a1, e1, 65535) {
            Some(v) => Some(v as u16),
            None => None,
        }
    } else {
        None
    }
}

/// The header name `set-cookie`.
pub open spec fn set_cookie_name() -> Seq<char> {
    seq!['s', 'e', 't', '-', 'c', 'o', 'o', 'k', 'i', 'e']
}

/// The header name `content-length`.
pub open spec fn content_length_name() -> Seq<char> {
    seq!['c', 'o', 'n', 't', 'e', 'n', 't', '-', 'l', 'e', 'n', 'g', 't', 'h']
}

/// The prefix of the device's session cookie, `TP_SESSIONID=`.
pub open spec fn session_cookie_prefix() -> Seq<char> {
    seq!['T', 'P', '_', 'S', 'E', 'S', 'S', 'I', 'O', 'N', 'I', 'D', '=']
}

fn set_cookie_name_chars() -> (r: Vec<char>)
    ensures
        r@ == set_cookie_name(),
{
    let r = vec!['s', 'e', 't', '-', 'c', 'o', 'o', 'k', 'i', 'e'];
    assert(r@ =~= set_cookie_name());
    r
}

fn content_length_name_chars() -> (r: Vec<char>)
    ensures
        r@ == content_length_name(),
{
    let r = vec!['c', 'o', 'n', 't', 'e', 'n', 't', '-', 'l', 'e', 'n', 'g', 't', 'h'];
    assert(r@ =~= content_length_name());
    r
}

fn session_cookie_prefix_chars() -> (r: Vec<char>)
    ensures
        r@ == session_cookie_prefix(),
{
    let r = vec!['T', 'P', '_', 'S', 'E', 'S', 'S', 'I', 'O', 'N', 'I', 'D', '='];
    assert(r@ =~= session_cookie_prefix());
    r
}

/// A header line `name: value` whose trimmed name equals `name` ignoring
/// ASCII case; the result is the trimmed value (`split_once(':')`, `trim`).
pub open spec fn header_value(line: Seq<char>, name: Seq<char>) -> Option<Seq<char>> {
    let c = find_char_from(line, ':', 0);
    if c < line.len() && eq_ignore_ascii_case(trim_spec(line.subrange(0, c)), name) {
        Some(trim_spec(line.subrange(c + 1, line.len() as int)))
    } else {
        None
    }
}

/// The session cookie a header line sets: a `Set-Cookie` line whose value,
/// up to its first `;`, starts with `TP_SESSIONID=`.
pub open spec fn line_cookie(line: Seq<char>) -> Option<Seq<char>> {
    match header_value(line, set_cookie_name()) {
        Some(v) => {
            let first = v.subrange(0, find_char_from(v, ';', 0));
            if first.len() >= 13 && first.subrange(0, 13) == session_cookie_prefix() {
                Some(first)
            } else {
                None
            }
        },
        None => None,
    }
}

/// The `Content-Length` a header line declares, when its value is a `usize`.
pub open spec fn line_content_length(line: Seq<char>) -> Option<nat> {
    match header_value(line, content_length_name()) {
        Some(v) => parse_unsigned_spec(v, usize::MAX as nat),
        None => None,
    }
}

/// Bounds within `line` of the trimmed value of header `name`, if the line is one.
fn header_value_bounds(line: &Vec<char>, name: &Vec<char>) -> (r: Option<(usize, usize)>)
    ensures
        match r {
            Some((x, y)) => x <= y <= line@.len() && header_value(line@, name@) == Some(
                line@.subrange(x as int, y as int),
            ),
            None => header_value(line@, name@) is None,
        },
{
    let c = find_char(line, ':', 0);
    if c >= line.len() {
        return None;
    }
    let key = sub_chars(line, 0, c);
    let (ka, kb) = trim_bounds(&key);
    if !range_eq_ignore_ascii_case(&key, ka, kb, name) {
        return None;
    }
    let value = sub_chars(line, c + 1, line.len());
    let (va, vb) = trim_bounds(&value);
    proof {
        assert(value@.subrange(va as int, vb as int) =~= line@.subrange(c + 1 + va, c + 1 + vb));
    }
    Some((c + 1 + va, c + 1 + vb))
}

/// Bounds within `line` of the session cookie it sets, if any.
fn line_cookie_bounds(line: &Vec<char>) -> (r: Option<(usize, usize)>)
    ensures
        match r {
            Some((x, y)) => x <= y <= line@.len() && line_cookie(line@) == Some(
                line@.subrange(x as int, y as int),
            ),
            None => line_cookie(line@) is None,
        },
{
    let name = set_cookie_name_chars();
    match header_value_bounds(line, &name) {
        Some((x, y)) => {
            let v = sub_chars(line, x, y);
            let f = find_char(&v, ';', 0);
            let prefix = session_cookie_prefix_chars();
            if range_starts_with(&v, 0, f, &prefix) {
                proof {
                    assert(v@.subrange(0, f as int) =~= line@.subrange(x as int, x + f));
                    assert(v@.subrange(0, f as int).subrange(0, 13) =~= v@.subrange(0, 13));
                }
                Some((x, x + f))
            } else {
                proof {
                    if f >= 13 {
                        assert(v@.subrange(0, f as int).subrange(0, 13) =~= v@.subrange(0, 13));
                    }
                }
                None
            }
        },
        None => None,
    }
}

/// The `Content-Length` a header line declares, if any.
fn line_content_length_of(line: &Vec<char>) -> (r: Option<usize>)
    ensures
        match r {
            Some(n) => line_content_length(line@) == Some(n as nat),
            None => line_content_length(line@) is None,
        },
{
    let name = content_length_name_chars();
    match header_value_bounds(line, &name) {
        Some((x, y)) => match parse_unsigned(line, x, y, usize::MAX as u64) {
            Some(n) => Some(n as usize),
            None => None,
        },
        None => None,
    }
}

/// The session cookie set by the header lines of `t` from index `start` on:
/// the last line that sets one wins.
pub open spec fn cookie_from(t: Seq<char>, start: int) -> Option<Seq<char>>
    decreases t.len() - start,
{
    let end = line_end_from(t, start);
    let later = if start <= end && end + 2 <= t.len() {
        cookie_from(t, end + 2)
    } else {
        None
    };
    if later is Some {
        later
    } else {
        line_cookie(t.subrange(start, end))
    }
}

/// The `Content-Length` declared by the lines of `t` from index `start` on:
/// the first line that declares a valid one.
pub open spec fn content_length_from(t: Seq<char>, start: int) -> Option<nat>
    decreases t.len() - start,
{
    let end = line_end_from(t, start);
    let here = line_content_length(t.subrange(start, end));
    if here is Some {
        here
    } else if start <= end && end + 2 <= t.len() {
        content_length_from(t, end + 2)
    } else {
        None
    }
}

/// The status and session cookie of a response head's text: the status is
/// read from the first line, the cookie from the lines after it.
pub open spec fn head_status(t: Seq<char>) -> Option<nat> {
    status_of_line(t.subrange(0, line_end_from(t, 0)))
}

pub open spec fn head_cookie(t: Seq<char>) -> Option<Seq<char>> {
    let e = line_end_from(t, 0);
    if e + 2 <= t.len() {
        cookie_from(t, e + 2)
    } else {
        None
    }
}

/// The text of a response head: its bytes decoded as `from_utf8_lossy` does.
pub open spec fn head_text(raw: Seq<u8>, sep: int) -> Seq<char> {
    spec_utf8_lossy(raw.subrange(0, sep))
}

/// What `parse_response` makes of `raw`: `None` when there is no blank line
/// ending the head or no numeric status, else status, cookie and body.
pub open spec fn parse_response_spec(raw: Seq<u8>) -> Option<(nat, Option<Seq<char>>, Seq<u8>)> {
    match find_bytes_from(raw, head_separator(), 0) {
        Some(sep) => {
            let t = head_text(raw, sep);
            match head_status(t) {
                Some(status) => Some((status, head_cookie(t), raw.subrange(sep + 4, raw.len() as int))),
                None => None,
            }
        },
        None => None,
    }
}

/// The session cookie set by the lines of `t` from `start` on, as bounds in `t`.
fn cookie_bounds_from(t: &Vec<char>, start: usize) -> (r: Option<(usize, usize)>)
    requires
        start <= t@.len(),
    ensures
        match r {
            Some((x, y)) => x <= y <= t@.len() && cookie_from(t@, start as int) == Some(
                t@.subrange(x as int, y as int),
            ),
            None => cookie_from(t@, start as int) is None,
        },
{
    let mut found: Option<(usize, usize)> = None;
    let mut pos = start;
    loop
        invariant
            pos <= t@.len(),
            match found {
                Some((x, y)) => x <= y <= t@.len(),
                None => true,
            },
            cookie_from(t@, start as int) == (if cookie_from(t@, pos as int) is Some {
                cookie_from(t@, pos as int)
            } else {
                match found {
                    Some((x, y)) => Some(t@.subrange(x as int, y as int)),
                    None => None,
                }
            }),
        decreases t@.len() - pos,
    {
        let end = line_end(t, pos);
        let line = sub_chars(t, pos, end);
        match line_cookie_bounds(&line) {
            Some((x, y)) => {
                proof {
                    assert(line@.subrange(x as int, y as int) =~= t@.subrange(pos + x, pos + y));
                }
                found = Some((pos + x, pos + y));
            },
            None => {},
        }
        if end < t.len() {
            pos = end + 2;
        } else {
            return found;
        }
    }
}

/// The `Content-Length` declared by a response head (0 when none is).
pub open spec fn content_length_spec(head: Seq<u8>) -> nat {
    match content_length_from(spec_utf8_lossy(head), 0) {
        Some(n) => n,
        None => 0,
    }
}

/// The body length that the response head `head` declares: the first header
/// line named `Content-Length` (any case) whose value is a `usize`, else 0.
pub fn content_length(head: &[u8]) -> (r: usize)
    ensures
        r as nat == content_length_spec(head@),
{
    let text = utf8_lossy(head);
    let t = chars_of(text.as_str());
    let mut pos: usize = 0;
    loop
        invariant
            pos <= t@.len(),
            t@ == spec_utf8_lossy(head@),
            content_length_from(t@, pos as int) == content_length_from(t@, 0),
        decreases t@.len() - pos,
    {
        let end = line_end(&t, pos);
        let line = sub_chars(&t, pos, end);
        match line_content_length_of(&line) {
            Some(n) => {
                return n;
            },
            None => {},
        }
        if end < t.len() {
            pos = end + 2;
        } else {
            return 0;
        }
    }
}

/// Parses a raw HTTP response: the status code from the status line, the
/// `TP_SESSIONID=...` pair of the last `Set-Cookie` header that sets one, and
/// the bytes after the first blank line as the body.
pub fn parse_response(raw: &[u8]) -> (r: Result<RawResponse, TapoError>)
    ensures
        match parse_response_spec(raw@) {
            Some((status, cookie, body)) => r matches Ok(resp) && resp.status as nat == status
                && string_opt_view(resp.set_cookie) == cookie && resp.body@ == body,
            None => r matches Err(TapoError::InvalidPayload),
        },
{
    let sep = match head_end(raw) {
        Some(i) => i,
        None => {
            return Err(TapoError::InvalidPayload);
        },
    };
    proof {
        lemma_find_bytes(raw@, head_separator(), 0);
        assert(head_separator().len() == 4);
        assert(occurs_at(raw@, head_separator(), sep as int));
    }
    let n = raw.len();
    let head = vstd::slice::slice_subrange(raw, 0, sep);
    let text = utf8_lossy(head);
    let body = vstd::slice::slice_to_vec(vstd::slice::slice_subrange(raw, sep + 4, n));
    match parse_head(text.as_str()) {
        Some((status, set_cookie)) => Ok(RawResponse { status, set_cookie, body }),
        None => Err(TapoError::InvalidPayload),
    }
}

/// Reads a response head's text: the status code is the second
/// whitespace-separated token of the first line, and the session cookie is
/// the `TP_SESSIONID=...` pair of the last later `Set-Cookie` line that sets
/// one. `None` when the status is missing or not a `u16`.
pub fn parse_head(text: &str) -> (r: Option<(u16, Option<String>)>)
    ensures
        match head_status(text@) {
            Some(status) => r matches Some(p) && p.0 as nat == status && string_opt_view(p.1)
                == head_cookie(text@),
            None => r is None,
        },
{
    let t = chars_of(text);
    let e0 = line_end(&t, 0);
    let status_line = sub_chars(&t, 0, e0);
    let status = match parse_status_line(&status_line) {
        Some(s) => s,
        None => {
            return None;
        },
    };
    let set_cookie = if e0 < t.len() {
        match cookie_bounds_from(&t, e0 + 2) {
            Some((x, y)) => Some(substring(text, x, y)),
            None => None,
        }
    } else {
        None
    };
    Some((status, set_cookie))
}

/// The head of a request: request line, then Title-Case `Host`, `Accept`,
/// `User-Agent`, `Content-Type`, `Content-Length` and `Connection: close`
/// headers, a `Cookie` header when there is a cookie, and the blank line.
pub open spec fn request_head_spec(
    method: Seq<char>,
    hostname: Seq<char>,
    path: Seq<char>,
    content_type: Seq<char>,
    content_length: nat,
    cookie: Option<Seq<char>>,
) -> Seq<char> {
    let head = method + " "@ + path + " HTTP/1.1\r\nHost: "@ + hostname
        + "\r\nAccept: */*\r\nUser-Agent: TapoController/0.1\r\nContent-Type: "@ + content_type
        + "\r\nContent-Length: "@ + decimal_spec(content_length) + "\r\nConnection: close\r\n"@;
    let with_cookie = match cookie {
        Some(c) => head + "Cookie: "@ + c + "\r\n"@,
        None => head,
    };
    with_cookie + "\r\n"@
}

/// The request head to write before a body of `content_length` bytes.
pub fn request_head(
    method: &str,
    hostname: &str,
    path: &str,
    content_type: &str,
    content_length: usize,
    cookie: Option<&str>,
) -> (r: String)
    ensures
        r@ == request_head_spec(
            method@,
            hostname@,
            path@,
            content_type@,
            content_length as nat,
            match cookie {
                Some(c) => Some(c@),
                None => None,
            },
        ),
{
    let mut head = String::from_str(method);
    head.append(" ");
    head.append(path);
    head.append(" HTTP/1.1\r\nHost: ");
    head.append(hostname);
    head.append("\r\nAccept: */*\r\nUser-Agent: TapoController/0.1\r\nContent-Type: ");
    head.append(content_type);
    head.append("\r\nContent-Length: ");
    let len = decimal(content_length as u64);
    head.append(len.as_str());
    head.append("\r\nConnection: close\r\n");
    match cookie {
        Some(c) => {
            head.append("Cookie: ");
            head.append(c);
            head.append("\r\n");
        },
        None => {},
    }
    head.append("\r\n");
    head
}

} // verus!
