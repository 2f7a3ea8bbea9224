//! Request-line parsing: the raw bytes of a request are decoded as
//! strict UTF-8, the first line is taken, and its first two
//! whitespace-separated tokens become the method and the path. A
//! request that cannot be decoded, or whose first line holds fewer
//! than two tokens, does not parse; callers substitute `("GET", "/")`.

use vstd::prelude::*;
use vstd::utf8::decode_utf8;
use vstd::utf8::valid_utf8;

verus! {

/// Unicode whitespace, as `char::is_whitespace` draws the line.
pub open spec fn is_ws_char(c: char) -> bool {
    let u = c as u32;
    u == 0x9 || u == 0xA || u == 0xB || u == 0xC || u == 0xD || u == 0x20 || u == 0x85 || u == 0xA0
        || u == 0x1680 || (0x2000 <= u && u <= 0x200A) || u == 0x2028 || u == 0x2029 || u == 0x202F
        || u == 0x205F || u == 0x3000
}

fn is_ws(c: char) -> (b: bool)
    ensures
        b == is_ws_char(c),
{
    let u = c as u32;
    u == 0x9 || u == 0xA || u == 0xB || u == 0xC || u == 0xD || u == 0x20 || u == 0x85 || u == 0xA0
        || u == 0x1680 || (0x2000 <= u && u <= 0x200A) || u == 0x2028 || u == 0x2029 || u == 0x202F
        || u == 0x205F || u == 0x3000
}

/// The first index at or after `i` that holds a non-whitespace
/// character, or the end of the string.
pub open spec fn ws_skip(s: Seq<char>, i: int) -> int
    decreases s.len() - i,
{
    if 0 <= i < s.len() && is_ws_char(s[i]) {
        ws_skip(s, i + 1)
    } else {
        i
    }
}

/// The first index at or after `i` that holds whitespace, or the end
/// of the string.
pub open spec fn token_end(s: Seq<char>, i: int) -> int
    decreases s.len() - i,
{
    if 0 <= i < s.len() && !is_ws_char(s[i]) {
        token_end(s, i + 1)
    } else {
        i
    }
}

/// The first index at or after `i` that holds `\n`, or the end of the
/// string.
pub open spec fn line_end(s: Seq<char>, i: int) -> int
    decreases s.len() - i,
{
    if 0 <= i < s.len() && s[i] != '\n' {
        line_end(s, i + 1)
    } else {
        i
    }
}

/// The first line of `s`: everything before the first `\n`, with a
/// carriage return that stands right before that `\n` stripped.
pub open spec fn first_line(s: Seq<char>) -> Seq<char> {
    let e = line_end(s, 0);
    if e < s.len() && e > 0 && s[e - 1] == '\r' {
        s.subrange(0, e - 1)
    } else {
        s.subrange(0, e)
    }
}

/// The first whitespace-separated token of the first line: the method.
pub open spec fn method_of(s: Seq<char>) -> Seq<char> {
    let l = first_line(s);
    let a = ws_skip(l, 0);
    l.subrange(a, token_end(l, a))
}

/// The second whitespace-separated token of the first line: the path.
pub open spec fn path_of(s: Seq<char>) -> Seq<char> {
    let l = first_line(s);
    let a = ws_skip(l, 0);
    let b = token_end(l, a);
    let c = ws_skip(l, b);
    l.subrange(c, token_end(l, c))
}

/// A request parses when its bytes are UTF-8, it is non-empty, and its
/// first line holds at least two tokens.
pub open spec fn request_parses(bytes: Seq<u8>) -> bool {
    valid_utf8(bytes) && decode_utf8(bytes).len() > 0 && path_of(decode_utf8(bytes)).len() > 0
}

proof fn lemma_ws_skip_bounds(s: Seq<char>, i: int)
    requires
        0 <= i <= s.len(),
    ensures
        i <= ws_skip(s, i) <= s.len(),
    decreases s.len() - i,
{
    if i < s.len() && is_ws_char(s[i]) {
        lemma_ws_skip_bounds(s, i + 1);
    }
}

proof fn lemma_token_end_bounds(s: Seq<char>, i: int)
    requires
        0 <= i <= s.len(),
    ensures
        i <= token_end(s, i) <= s.len(),
    decreases s.len() - i,
{
    if i < s.len() && !is_ws_char(s[i]) {
        lemma_token_end_bounds(s, i + 1);
    }
}

/// Relies on `std::str::from_utf8`: it succeeds exactly on UTF-8 input,
/// and the returned slice holds the decoded characters of those bytes.
#[verifier::external_body]
fn bytes_to_str(v: &[u8]) -> (r: Option<&str>)
    ensures
        r is Some <==> valid_utf8(v@),
        r is Some ==> r.unwrap()@ == decode_utf8(v@),
{
    std::str::from_utf8(v).ok()
}

/// Extract `(method, path)` from the first line of a raw request.
/// Returns `None` when the bytes are not UTF-8 or the first line holds
/// fewer than two whitespace-separated tokens.
pub fn parse_http_request(buffer: &[u8]) -> (r: Option<(&str, &str)>)
    ensures
        r is Some <==> request_parses(buffer@),
        r is Some ==> r.unwrap().0@ == method_of(decode_utf8(buffer@)),
        r is Some ==> r.unwrap().1@ == path_of(decode_utf8(buffer@)),
{
    let s = match bytes_to_str(buffer) {
        Some(s) => s,
        None => {
            return None;
        },
    };
    let ghost sv = s@;
    let len = s.unicode_len();
    if len == 0 {
        return None;
    }
    let mut e: usize = 0;
    while e < len && s.get_char(e) != '\n'
        invariant
            s@ == sv,
            len == sv.len(),
            e <= len,
            line_end(sv, 0) == line_end(sv, e as int),
        decreases len - e,
    {
        proof {
            assert(line_end(sv, e as int) == line_end(sv, e + 1));
        }
        e = e + 1;
    }
    proof {
        assert(line_end(sv, e as int) == e as int);
    }
    let lend: usize = if e < len && e > 0 && s.get_char(e - 1) == '\r' {
        e - 1
    } else {
        e
    };
    let line = s.substring_char(0, lend);
    let ghost l = first_line(sv);
    proof {
        assert(line@ =~= l);
    }
    let a = scan_ws(line, 0);
    let b = scan_token(line, a);
    let c = scan_ws(line, b);
    let d = scan_token(line, c);
    if d == c {
        proof {
            assert(path_of(sv).len() == 0);
        }
        return None;
    }
    let method = line.substring_char(a, b);
    let path = line.substring_char(c, d);
    proof {
        assert(method@ =~= method_of(sv));
        assert(path@ =~= path_of(sv));
    }
    Some((method, path))
}

/// Advance over whitespace, returning `ws_skip` of the view.
fn scan_ws(line: &str, from: usize) -> (r: usize)
    requires
        from <= line@.len(),
    ensures
        r == ws_skip(line@, from as int),
        from <= r <= line@.len(),
{
    let ghost l = line@;
    let len = line.unicode_len();
    let mut i: usize = from;
    while i < len && is_ws(line.get_char(i))
        invariant
            line@ == l,
            len == l.len(),
            from <= i <= len,
            ws_skip(l, from as int) == ws_skip(l, i as int),
        decreases len - i,
    {
        proof {
            assert(ws_skip(l, i as int) == ws_skip(l, i + 1));
        }
        i = i + 1;
    }
    proof {
        assert(ws_skip(l, i as int) == i as int);
    }
    i
}

/// Advance over non-whitespace, returning `token_end` of the view.
fn scan_token(line: &str, from: usize) -> (r: usize)
    requires
        from <= line@.len(),
    ensures
        r == token_end(line@, from as int),
        from <= r <= line@.len(),
{
    let ghost l = line@;
    let len = line.unicode_len();
    let mut i: usize = from;
    while i < len && !is_ws(line.get_char(i))
        invariant
            line@ == l,
            len == l.len(),
            from <= i <= len,
            token_end(l, from as int) == token_end(l, i as int),
        decreases len - i,
    {
        proof {
            assert(token_end(l, i as int) == token_end(l, i + 1));
        }
        i = i + 1;
    }
    proof {
        assert(token_end(l, i as int) == i as int);
    }
    i
}

/// The caller policy around [`parse_http_request`]: a request that does
/// not parse is treated as `GET /`, never rejected.
pub fn parse_or_default(buffer: &[u8]) -> (r: (String, String))
    ensures
        request_parses(buffer@) ==> r.0@ == method_of(decode_utf8(buffer@)) && r.1@ == path_of(
            decode_utf8(buffer@),
        ),
        !request_parses(buffer@) ==> r.0@ == "GET"@ && r.1@ == "/"@,
{
    match parse_http_request(buffer) {
        Some((m, p)) => (m.to_owned(), p.to_owned()),
        None => ("GET".to_owned(), "/".to_owned()),
    }
}

} // verus!
