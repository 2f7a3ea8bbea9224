//! Content-type classification: the extension of the final path segment
//! is looked up in a fixed extension-to-MIME table; anything else, and a
//! missing extension, is served as `text/plain`.

use vstd::prelude::*;
use crate::text::str_eq;

verus! {

/// The start of the final path segment: the index just after the last
/// `/`, or `0` when the path holds no separator.
pub open spec fn file_start(s: Seq<char>) -> int
    decreases s.len(),
{
    if s.len() == 0 {
        0
    } else if s[s.len() - 1] == '/' {
        s.len() as int
    } else {
        file_start(s.drop_last())
    }
}

/// The index of the last `.` in `seg`, or `-1` when there is none.
pub open spec fn last_dot(seg: Seq<char>) -> int
    decreases seg.len(),
{
    if seg.len() == 0 {
        -1
    } else if seg[seg.len() - 1] == '.' {
        seg.len() - 1
    } else {
        last_dot(seg.drop_last())
    }
}

/// The extension of a path: the text after the last `.` of the final
/// segment. A segment without a `.` has the empty extension.
pub open spec fn ext_of(path: Seq<char>) -> Seq<char> {
    let seg = path.subrange(file_start(path), path.len() as int);
    let d = last_dot(seg);
    if d < 0 {
        Seq::empty()
    } else {
        seg.subrange(d + 1, seg.len() as int)
    }
}

/// The fixed extension-to-MIME table; every extension outside it maps
/// to `text/plain`.
pub open spec fn mime_of(ext: Seq<char>) -> Seq<char> {
    if ext == "html"@ {
        "text/html"@
    } else if ext == "css"@ {
        "text/css"@
    } else if ext == "js"@ {
        "application/javascript"@
    } else if ext == "json"@ {
        "application/json"@
    } else if ext == "png"@ {
        "image/png"@
    } else if ext == "jpg"@ {
        "image/jpeg"@
    } else if ext == "jpeg"@ {
        "image/jpeg"@
    } else if ext == "gif"@ {
        "image/gif"@
    } else if ext == "svg"@ {
        "image/svg+xml"@
    } else if ext == "ico"@ {
        "image/x-icon"@
    } else if ext == "pdf"@ {
        "application/pdf"@
    } else if ext == "txt"@ {
        "text/plain"@
    } else if ext == "xml"@ {
        "application/xml"@
    } else if ext == "webp"@ {
        "image/webp"@
    } else {
        "text/plain"@
    }
}

proof fn lemma_file_start_bounds(s: Seq<char>)
    ensures
        0 <= file_start(s) <= s.len(),
    decreases s.len(),
{
    if s.len() > 0 && s[s.len() - 1] != '/' {
        lemma_file_start_bounds(s.drop_last());
    }
}

/// Map a file path to the MIME type of its extension. Total: a path
/// whose extension is unknown or absent yields `text/plain`.
pub fn get_content_type(path: &str) -> (r: &'static str)
    ensures
        r@ == mime_of(ext_of(path@)),
{
    let ghost s = path@;
    let len = path.unicode_len();
    let mut k: usize = len;
    proof {
        assert(s.subrange(0, len as int) =~= s);
    }
    while k > 0 && path.get_char(k - 1) != '/'
        invariant
            path@ == s,
            len == s.len(),
            k <= len,
            file_start(s) == file_start(s.subrange(0, k as int)),
        decreases k,
    {
        proof {
            let cur = s.subrange(0, k as int);
            assert(cur.len() == k);
            assert(cur[k - 1] == s[k - 1]);
            assert(cur.drop_last() =~= s.subrange(0, k - 1));
        }
        k = k - 1;
    }
    proof {
        let cur = s.subrange(0, k as int);
        if k > 0 {
            assert(cur[k - 1] == s[k - 1]);
            assert(file_start(cur) == k);
        } else {
            assert(cur.len() == 0);
        }
        assert(file_start(s) == k);
    }
    let ghost fs = k as int;
    let ghost seg = s.subrange(fs, len as int);
    let mut m: usize = len;
    proof {
        lemma_file_start_bounds(s);
        assert(seg.subrange(0, len - fs) =~= seg);
    }
    while m > k && path.get_char(m - 1) != '.'
        invariant
            path@ == s,
            len == s.len(),
            k <= m <= len,
            fs == k as int,
            seg == s.subrange(fs, len as int),
            last_dot(seg) == last_dot(seg.subrange(0, m - fs)),
        decreases m,
    {
        proof {
            let cur = seg.subrange(0, m - fs);
            assert(cur.len() == m - fs);
            assert(cur[m - fs - 1] == s[m - 1]);
            assert(cur.drop_last() =~= seg.subrange(0, m - 1 - fs));
        }
        m = m - 1;
    }
    proof {
        let cur = seg.subrange(0, m - fs);
        if m > k {
            assert(cur[m - fs - 1] == s[m - 1]);
            assert(last_dot(cur) == m - fs - 1);
        } else {
            assert(cur.len() == 0);
        }
        assert(seg.subrange(0, len - fs) =~= seg);
        assert(last_dot(seg) == if m > k { m - fs - 1 } else { -1 });
    }
    let estart: usize = if m == k {
        len
    } else {
        m
    };
    let ext = path.substring_char(estart, len);
    proof {
        if m == k {
            assert(ext@ =~= ext_of(s));
        } else {
            assert(last_dot(seg) == m - fs - 1);
            assert(last_dot(seg) >= 0);
            assert(seg.subrange(last_dot(seg) + 1, seg.len() as int) =~= s.subrange(
                m as int,
                len as int,
            ));
            assert(ext@ =~= ext_of(s));
        }
    }
    if str_eq(ext, "html") {
        "text/html"
    } else if str_eq(ext, "css") {
        "text/css"
    } else if str_eq(ext, "js") {
        "application/javascript"
    } else if str_eq(ext, "json") {
        "application/json"
    } else if str_eq(ext, "png") {
        "image/png"
    } else if str_eq(ext, "jpg") {
        "image/jpeg"
    } else if str_eq(ext, "jpeg") {
        "image/jpeg"
    } else if str_eq(ext, "gif") {
        "image/gif"
    } else if str_eq(ext, "svg") {
        "image/svg+xml"
    } else if str_eq(ext, "ico") {
        "image/x-icon"
    } else if str_eq(ext, "pdf") {
        "application/pdf"
    } else if str_eq(ext, "txt") {
        "text/plain"
    } else if str_eq(ext, "xml") {
        "application/xml"
    } else if str_eq(ext, "webp") {
        "image/webp"
    } else {
        "text/plain"
    }
}

} // verus!
