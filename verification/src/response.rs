//! Target resolution and response framing: the candidate file path of
//! a request, the decision of what a connection answers, and the bytes
//! of the response head.

use vstd::prelude::*;
use vstd::string::StringSliceAdditionalSpecFns;
use crate::config::NebulaConfig;
use crate::sanitize::sanitize_path;
use crate::sanitize::sanitize_spec;
use crate::text::str_eq;
use crate::text::str_starts_with;

verus! {

/// The candidate filesystem path of a request: the default file under
/// the content root for `/`, otherwise the sanitized path under the
/// content root.
pub open spec fn candidate_spec(
    path: Seq<char>,
    public_dir: Seq<char>,
    default_file: Seq<char>,
) -> Seq<char> {
    if path == "/"@ {
        public_dir + seq!['/'] + default_file
    } else {
        public_dir + seq!['/'] + sanitize_spec(path)
    }
}

/// Map a request path to the file the request asks for.
pub fn candidate_path(path: &str, config: &NebulaConfig) -> (r: String)
    ensures
        r@ == candidate_spec(path@, config.content.public_dir@, config.content.default_file@),
{
    let mut out = config.content.public_dir.clone();
    out.append("/");
    proof {
        reveal_strlit("/");
        assert("/"@ =~= seq!['/']);
    }
    if str_eq(path, "/") {
        out.append(config.content.default_file.as_str());
    } else {
        let tail = sanitize_path(path);
        out.append(tail.as_str());
    }
    out
}

/// The status of a response.
#[derive(Clone, Copy, PartialEq, Eq, Structural, Debug)]
pub enum Status {
    Success,
    NotFound,
    MethodNotAllowed,
    ServerError,
}

/// What a connection decides to do once method, path and the existence
/// of the candidate file are known.
#[derive(Clone, Copy, PartialEq, Eq, Structural, Debug)]
pub enum Action {
    /// Serve the candidate file, as raw bytes or as text.
    ServeFile { binary: bool },
    /// Answer the fixed diagnostic route.
    Hello,
    /// Answer that nothing was found.
    NotFound,
    /// Refuse the method.
    MethodNotAllowed,
}

/// A content type is served as raw bytes unless it is textual or
/// JavaScript.
pub open spec fn is_binary_spec(ct: Seq<char>) -> bool {
    !(ct.len() >= 5 && ct.subrange(0, 5) == "text/"@) && ct != "application/javascript"@
}

/// Decide whether a content type is read as raw bytes or as text.
pub fn is_binary(content_type: &str) -> (r: bool)
    ensures
        r == is_binary_spec(content_type@),
{
    proof {
        reveal_strlit("text/");
    }
    let textual = str_starts_with(content_type, "text/");
    let js = str_eq(content_type, "application/javascript");
    !textual && !js
}

/// What every request maps to: a non-`GET` method is refused whatever
/// the path; an existing file is served; a `GET` for the missing
/// `/hello` answers the diagnostic route; anything else is not found.
pub open spec fn classify_spec(
    method: Seq<char>,
    path: Seq<char>,
    exists: bool,
    ct: Seq<char>,
) -> Action {
    if method != "GET"@ {
        Action::MethodNotAllowed
    } else if exists {
        Action::ServeFile { binary: is_binary_spec(ct) }
    } else if path == "/hello"@ {
        Action::Hello
    } else {
        Action::NotFound
    }
}

/// Decide what a connection does, from the parsed method and path, the
/// existence of the candidate file, and its content type.
pub fn classify_request(method: &str, path: &str, exists: bool, content_type: &str) -> (a: Action)
    ensures
        a == classify_spec(method@, path@, exists, content_type@),
{
    if !str_eq(method, "GET") {
        Action::MethodNotAllowed
    } else if exists {
        Action::ServeFile { binary: is_binary(content_type) }
    } else if str_eq(path, "/hello") {
        Action::Hello
    } else {
        Action::NotFound
    }
}

/// A response before framing: its status and its body bytes. The two
/// are always jointly consistent: a success carries the file bytes or
/// the fixed diagnostic text, never partial content.
pub struct ResponseOutcome {
    pub status: Status,
    pub body: Vec<u8>,
}

/// The status a decision leads to, given whether the file read (when
/// one was called for) yielded bytes.
pub open spec fn status_spec(action: Action, read_ok: bool) -> Status {
    match action {
        Action::ServeFile { .. } => if read_ok {
            Status::Success
        } else {
            Status::ServerError
        },
        Action::Hello => Status::Success,
        Action::NotFound => Status::NotFound,
        Action::MethodNotAllowed => Status::MethodNotAllowed,
    }
}

/// The body a decision leads to: the file's bytes as they were read,
/// or one of the fixed diagnostic texts.
pub open spec fn body_spec(action: Action, read: Option<Seq<u8>>) -> Seq<u8> {
    match action {
        Action::ServeFile { .. } => if read is Some {
            read.unwrap()
        } else {
            "Error reading file".spec_bytes()
        },
        Action::Hello => "Hello, Rustacean!".spec_bytes(),
        Action::NotFound => "Page not found".spec_bytes(),
        Action::MethodNotAllowed => "Method not allowed".spec_bytes(),
    }
}

/// The view of the bytes a file read yielded, if it yielded any.
pub open spec fn read_view(read: Option<Vec<u8>>) -> Option<Seq<u8>> {
    match read {
        Some(v) => Some(v@),
        None => None,
    }
}

/// Turn a decision, and the bytes the file read yielded, into the
/// response outcome: a served file whose read failed degrades to a
/// fixed diagnostic answer, never to partial content.
pub fn outcome_for(action: Action, read: Option<Vec<u8>>) -> (r: ResponseOutcome)
    ensures
        r.status == status_spec(action, read is Some),
        r.body@ == body_spec(action, read_view(read)),
{
    match action {
        Action::ServeFile { .. } => match read {
            Some(bytes) => ResponseOutcome { status: Status::Success, body: bytes },
            None => ResponseOutcome {
                status: Status::ServerError,
                body: "Error reading file".as_bytes_vec(),
            },
        },
        Action::Hello => ResponseOutcome {
            status: Status::Success,
            body: "Hello, Rustacean!".as_bytes_vec(),
        },
        Action::NotFound => ResponseOutcome {
            status: Status::NotFound,
            body: "Page not found".as_bytes_vec(),
        },
        Action::MethodNotAllowed => ResponseOutcome {
            status: Status::MethodNotAllowed,
            body: "Method not allowed".as_bytes_vec(),
        },
    }
}

/// The status line of each outcome.
pub open spec fn status_line_spec(st: Status) -> Seq<char> {
    match st {
        Status::Success => "HTTP/1.1 200 OK"@,
        Status::NotFound => "HTTP/1.1 404 NOT FOUND"@,
        Status::MethodNotAllowed => "HTTP/1.1 405 METHOD NOT ALLOWED"@,
        Status::ServerError => "HTTP/1.1 500 INTERNAL SERVER ERROR"@,
    }
}

/// The status line sent for a status.
pub fn status_line(st: Status) -> (r: &'static str)
    ensures
        r@ == status_line_spec(st),
{
    match st {
        Status::Success => "HTTP/1.1 200 OK",
        Status::NotFound => "HTTP/1.1 404 NOT FOUND",
        Status::MethodNotAllowed => "HTTP/1.1 405 METHOD NOT ALLOWED",
        Status::ServerError => "HTTP/1.1 500 INTERNAL SERVER ERROR",
    }
}

/// The decimal digit for a value below ten.
pub open spec fn dec_digit(n: int) -> char {
    if n == 0 {
        '0'
    } else if n == 1 {
        '1'
    } else if n == 2 {
        '2'
    } else if n == 3 {
        '3'
    } else if n == 4 {
        '4'
    } else if n == 5 {
        '5'
    } else if n == 6 {
        '6'
    } else if n == 7 {
        '7'
    } else if n == 8 {
        '8'
    } else {
        '9'
    }
}

/// The decimal digits of a non-negative number, most significant
/// first, with no leading zero.
pub open spec fn dec_rep(n: int) -> Seq<char>
    decreases n,
{
    if n < 10 {
        seq![dec_digit(n)]
    } else {
        dec_rep(n / 10) + seq![dec_digit(n % 10)]
    }
}

fn digit_str(d: usize) -> (r: &'static str)
    requires
        d < 10,
    ensures
        r@ == seq![dec_digit(d as int)],
{
    if d == 0 {
        proof {
            reveal_strlit("0");
            assert("0"@ =~= seq!['0']);
        }
        "0"
    } else if d == 1 {
        proof {
            reveal_strlit("1");
            assert("1"@ =~= seq!['1']);
        }
        "1"
    } else if d == 2 {
        proof {
            reveal_strlit("2");
            assert("2"@ =~= seq!['2']);
        }
        "2"
    } else if d == 3 {
        proof {
            reveal_strlit("3");
            assert("3"@ =~= seq!['3']);
        }
        "3"
    } else if d == 4 {
        proof {
            reveal_strlit("4");
            assert("4"@ =~= seq!['4']);
        }
        "4"
    } else if d == 5 {
        proof {
            reveal_strlit("5");
            assert("5"@ =~= seq!['5']);
        }
        "5"
    } else if d == 6 {
        proof {
            reveal_strlit("6");
            assert("6"@ =~= seq!['6']);
        }
        "6"
    } else if d == 7 {
        proof {
            reveal_strlit("7");
            assert("7"@ =~= seq!['7']);
        }
        "7"
    } else if d == 8 {
        proof {
            reveal_strlit("8");
            assert("8"@ =~= seq!['8']);
        }
        "8"
    } else {
        proof {
            reveal_strlit("9");
            assert("9"@ =~= seq!['9']);
        }
        "9"
    }
}

/// Append the decimal digits of `n` to `out`.
pub fn push_decimal(out: &mut String, n: usize)
    ensures
        final(out)@ == old(out)@ + dec_rep(n as int),
    decreases n,
{
    if n >= 10 {
        push_decimal(out, n / 10);
        out.append(digit_str(n % 10));
        proof {
            assert(out@ =~= old(out)@ + dec_rep(n as int));
        }
    } else {
        out.append(digit_str(n));
    }
}

/// The full response head: status line, the content type computed from
/// the candidate path, the body length, and a blank line.
pub open spec fn head_spec(st: Status, ct: Seq<char>, body_len: int) -> Seq<char> {
    status_line_spec(st) + "\r\nContent-Type: "@ + ct + "\r\nContent-Length: "@ + dec_rep(body_len)
        + "\r\n\r\n"@
}

/// Frame the response head for a status, a content type and a body
/// length.
pub fn render_head(st: Status, content_type: &str, body_len: usize) -> (r: String)
    ensures
        r@ == head_spec(st, content_type@, body_len as int),
{
    let mut out = String::new();
    out.append(status_line(st));
    out.append("\r\nContent-Type: ");
    out.append(content_type);
    out.append("\r\nContent-Length: ");
    push_decimal(&mut out, body_len);
    out.append("\r\n\r\n");
    proof {
        assert(out@ =~= head_spec(st, content_type@, body_len as int));
    }
    out
}

/// Build the full response for a decision: the framed head and the
/// body bytes, with the Content-Length of the head equal to the length
/// of the body.
pub fn build_response(action: Action, read: Option<Vec<u8>>, content_type: &str) -> (r: (
    String,
    Vec<u8>,
))
    ensures
        r.1@ == body_spec(action, read_view(read)),
        r.0@ == head_spec(status_spec(action, read is Some), content_type@, r.1@.len() as int),
{
    let outcome = outcome_for(action, read);
    let head = render_head(outcome.status, content_type, outcome.body.len());
    (head, outcome.body)
}

/// The method gate: a request whose method is not `GET` is refused,
/// whatever its path, whether the candidate file exists, and whatever
/// its content type; the answer's status is then always 405.
pub proof fn lemma_method_gate(method: Seq<char>, path: Seq<char>, exists: bool, ct: Seq<char>)
    requires
        method != "GET"@,
    ensures
        classify_spec(method, path, exists, ct) == Action::MethodNotAllowed,
        forall|read: Option<Seq<u8>>, read_ok: bool|
            status_spec(#[trigger] classify_spec(method, path, exists, ct), read_ok)
                == Status::MethodNotAllowed && body_spec(
                classify_spec(method, path, exists, ct),
                read,
            ) == "Method not allowed".spec_bytes(),
{
}

} // verus!
