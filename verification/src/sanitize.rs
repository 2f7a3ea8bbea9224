//! Path sanitization: a raw request path is reduced to a traversal-free
//! relative path by splitting on `/`, dropping every component that is
//! empty, `.` or `..`, and rejoining the survivors with `/`.

use vstd::prelude::*;

verus! {

/// A path component survives sanitization exactly when it is non-empty
/// and is neither `.` nor `..`.
pub open spec fn keep_component(seg: Seq<char>) -> bool {
    seg.len() > 0 && !(seg.len() == 1 && seg[0] == '.') && !(seg.len() == 2 && seg[0] == '.'
        && seg[1] == '.')
}

/// A component as the sanitizer emits it: kept, and free of separators.
pub open spec fn valid_component(seg: Seq<char>) -> bool {
    keep_component(seg) && forall|c: int| 0 <= c < seg.len() ==> seg[c] != '/'
}

/// The end of the path component that starts at `i`: the first index at
/// or after `i` that holds `/`, or the end of the string.
pub open spec fn component_end(s: Seq<char>, i: int) -> int
    decreases s.len() - i,
{
    if 0 <= i < s.len() && s[i] != '/' {
        component_end(s, i + 1)
    } else {
        i
    }
}

pub proof fn lemma_component_end(s: Seq<char>, i: int)
    requires
        0 <= i <= s.len(),
    ensures
        i <= component_end(s, i) <= s.len(),
        forall|j: int| i <= j < component_end(s, i) ==> s[j] != '/',
        component_end(s, i) < s.len() ==> s[component_end(s, i)] == '/',
    decreases s.len() - i,
{
    if i < s.len() && s[i] != '/' {
        lemma_component_end(s, i + 1);
    }
}

/// The surviving components of `s`, from position `i` on.
pub open spec fn components_from(s: Seq<char>, i: int) -> Seq<Seq<char>>
    decreases s.len() - i,
    when 0 <= i
    via components_from_decreases
{
    if i >= s.len() {
        seq![]
    } else if s[i] == '/' {
        components_from(s, i + 1)
    } else {
        let e = component_end(s, i);
        let seg = s.subrange(i, e);
        if keep_component(seg) {
            seq![seg] + components_from(s, e)
        } else {
            components_from(s, e)
        }
    }
}

#[via_fn]
proof fn components_from_decreases(s: Seq<char>, i: int) {
    if 0 <= i < s.len() && s[i] != '/' {
        lemma_component_end(s, i);
    }
}

/// Join a component list with `/` separators.
pub open spec fn join_components(cs: Seq<Seq<char>>) -> Seq<char>
    decreases cs.len(),
{
    if cs.len() == 0 {
        seq![]
    } else if cs.len() == 1 {
        cs[0]
    } else {
        cs[0] + seq!['/'] + join_components(cs.drop_first())
    }
}

/// What remains of a join after a first component has been written out:
/// nothing, or a separator followed by the join of the rest.
pub open spec fn tail_join(cs: Seq<Seq<char>>) -> Seq<char> {
    if cs.len() == 0 {
        seq![]
    } else {
        seq!['/'] + join_components(cs)
    }
}

/// The sanitized form of a raw request path.
pub open spec fn sanitize_spec(s: Seq<char>) -> Seq<char> {
    join_components(components_from(s, 0))
}

proof fn lemma_join_unfold(seg: Seq<char>, cs: Seq<Seq<char>>)
    ensures
        join_components(seq![seg] + cs) == seg + tail_join(cs),
{
    let whole = seq![seg] + cs;
    if cs.len() == 0 {
        assert(whole.len() == 1);
        assert(whole[0] == seg);
        assert(seg + tail_join(cs) =~= seg);
    } else {
        assert(whole.len() >= 2);
        assert(whole[0] == seg);
        assert(whole.drop_first() =~= cs);
        assert(seg + seq!['/'] + join_components(cs) =~= seg + (seq!['/']
            + join_components(cs)));
    }
}

/// Sanitize a raw request path: every component that is empty, `.` or
/// `..` is dropped, and the survivors are rejoined with `/`. The result
/// is always interpreted relative to the content root.
pub fn sanitize_path(path: &str) -> (r: String)
    ensures
        r@ == sanitize_spec(path@),
{
    let ghost s = path@;
    let len = path.unicode_len();
    let mut out = String::new();
    let mut i: usize = 0;
    while i < len
        invariant
            path@ == s,
            len == s.len(),
            i <= len,
            out@.len() == 0 ==> components_from(s, 0) == components_from(s, i as int),
            out@.len() > 0 ==> join_components(components_from(s, 0)) == out@ + tail_join(
                components_from(s, i as int),
            ),
        decreases len - i,
    {
        if path.get_char(i) == '/' {
            proof {
                assert(components_from(s, i as int) == components_from(s, i + 1));
            }
            i = i + 1;
        } else {
            let ghost i0 = i as int;
            let mut j: usize = i + 1;
            while j < len && path.get_char(j) != '/'
                invariant
                    path@ == s,
                    len == s.len(),
                    i0 < j <= len,
                    i0 < s.len(),
                    s[i0] != '/',
                    component_end(s, i0) == component_end(s, j as int),
                decreases len - j,
            {
                proof {
                    assert(component_end(s, j as int) == component_end(s, j + 1));
                }
                j = j + 1;
            }
            proof {
                assert(component_end(s, j as int) == j as int);
                assert(component_end(s, i0) == j as int);
            }
            let ghost seg = s.subrange(i0, j as int);
            let seglen = j - i;
            let keep: bool = if seglen == 1 {
                path.get_char(i) != '.'
            } else if seglen == 2 {
                !(path.get_char(i) == '.' && path.get_char(i + 1) == '.')
            } else {
                true
            };
            proof {
                assert(seg.len() == seglen);
                assert(seg[0] == s[i0]);
                if seglen == 2 {
                    assert(seg[1] == s[i0 + 1]);
                }
                assert(keep == keep_component(seg));
            }
            if keep {
                proof {
                    assert(components_from(s, i0) == seq![seg] + components_from(s, j as int));
                    lemma_join_unfold(seg, components_from(s, j as int));
                }
                if !out.as_str().is_empty() {
                    out.append("/");
                    proof {
                        reveal_strlit("/");
                        assert("/"@ =~= seq!['/']);
                    }
                }
                let piece = path.substring_char(i, j);
                let ghost out_before = out@;
                out.append(piece);
                proof {
                    assert(out@ == out_before + seg);
                    assert(out@.len() > 0);
                    assert(join_components(components_from(s, 0)) == out@ + tail_join(
                        components_from(s, j as int),
                    ));
                }
            } else {
                proof {
                    assert(components_from(s, i0) == components_from(s, j as int));
                }
            }
            i = j;
        }
    }
    proof {
        assert(components_from(s, i as int) =~= seq![]);
        if out@.len() == 0 {
            assert(out@ =~= sanitize_spec(s));
        } else {
            assert(out@ + tail_join(seq![]) =~= out@);
        }
    }
    out
}

/// Sanitization is idempotent: sanitizing an already sanitized path
/// changes nothing.
pub proof fn lemma_sanitize_idempotent(p: Seq<char>)
    ensures
        sanitize_spec(sanitize_spec(p)) == sanitize_spec(p),
{
    lemma_components_valid(p, 0);
    lemma_join_inverse(components_from(p, 0));
}

/// Traversal is neutralized: every component of a sanitized path is
/// non-empty and is neither `.` nor `..`, so the result never climbs
/// out of the content root it is joined under.
pub proof fn lemma_sanitize_traversal_free(p: Seq<char>)
    ensures
        forall|k: int|
            0 <= k < components_from(sanitize_spec(p), 0).len() ==> valid_component(
                #[trigger] components_from(sanitize_spec(p), 0)[k],
            ),
{
    lemma_components_valid(p, 0);
    lemma_join_inverse(components_from(p, 0));
}

/// Every component the sanitizer keeps is non-empty, is neither `.` nor
/// `..`, and holds no separator.
pub proof fn lemma_components_valid(s: Seq<char>, i: int)
    requires
        0 <= i <= s.len(),
    ensures
        forall|k: int|
            0 <= k < components_from(s, i).len() ==> valid_component(
                #[trigger] components_from(s, i)[k],
            ),
    decreases s.len() - i,
{
    if i >= s.len() {
        assert(components_from(s, i) =~= seq![]);
    } else if s[i] == '/' {
        lemma_components_valid(s, i + 1);
        assert(components_from(s, i) == components_from(s, i + 1));
    } else {
        lemma_component_end(s, i);
        let e = component_end(s, i);
        let seg = s.subrange(i, e);
        lemma_components_valid(s, e);
        if keep_component(seg) {
            assert(valid_component(seg));
            assert(components_from(s, i) == seq![seg] + components_from(s, e));
            assert forall|k: int| 0 <= k < components_from(s, i).len() implies valid_component(
                components_from(s, i)[k],
            ) by {
                if k == 0 {
                } else {
                    assert(components_from(s, i)[k] == components_from(s, e)[k - 1]);
                }
            }
        } else {
            assert(components_from(s, i) == components_from(s, e));
        }
    }
}

proof fn lemma_component_end_shift(x: Seq<char>, t: Seq<char>, j: int)
    requires
        0 <= j <= t.len(),
    ensures
        component_end(x + t, x.len() + j) == x.len() + component_end(t, j),
    decreases t.len() - j,
{
    let s = x + t;
    if j < t.len() && t[j] != '/' {
        assert(s[x.len() + j] == t[j]);
        lemma_component_end_shift(x, t, j + 1);
    } else {
        if j < t.len() {
            assert(s[x.len() + j] == t[j]);
        }
    }
}

proof fn lemma_components_shift(x: Seq<char>, t: Seq<char>, j: int)
    requires
        0 <= j <= t.len(),
    ensures
        components_from(x + t, x.len() + j) == components_from(t, j),
    decreases t.len() - j,
{
    let s = x + t;
    if j >= t.len() {
        assert(components_from(s, x.len() + j) =~= seq![]);
    } else if t[j] == '/' {
        assert(s[x.len() + j] == t[j]);
        lemma_components_shift(x, t, j + 1);
    } else {
        assert(s[x.len() + j] == t[j]);
        lemma_component_end_shift(x, t, j);
        lemma_component_end(t, j);
        let e = component_end(t, j);
        assert(component_end(s, x.len() + j) == x.len() + e);
        assert(s.subrange(x.len() + j, x.len() + e) =~= t.subrange(j, e));
        lemma_components_shift(x, t, e);
    }
}

/// Splitting a join of valid components gives the components back.
pub proof fn lemma_join_inverse(cs: Seq<Seq<char>>)
    requires
        forall|k: int| 0 <= k < cs.len() ==> valid_component(#[trigger] cs[k]),
    ensures
        components_from(join_components(cs), 0) == cs,
    decreases cs.len(),
{
    if cs.len() == 0 {
        assert(components_from(join_components(cs), 0) =~= seq![]);
    } else if cs.len() == 1 {
        let c0 = cs[0];
        assert(valid_component(c0));
        let s = join_components(cs);
        assert(s == c0);
        lemma_component_end(s, 0);
        let e = component_end(s, 0);
        assert(e == s.len()) by {
            if e < s.len() {
                assert(s[e] == '/');
            }
        }
        assert(s.subrange(0, e) =~= c0);
        assert(components_from(s, 0) =~= seq![c0] + components_from(s, s.len() as int));
        assert(components_from(s, 0) =~= cs);
    } else {
        let c0 = cs[0];
        let rest = cs.drop_first();
        assert(valid_component(c0));
        assert forall|k: int| 0 <= k < rest.len() implies valid_component(#[trigger] rest[k]) by {
            assert(rest[k] == cs[k + 1]);
        }
        let s = join_components(cs);
        let m = c0.len() as int;
        assert(s == c0 + seq!['/'] + join_components(rest));
        let x = c0 + seq!['/'];
        let t = join_components(rest);
        assert(s =~= x + t);
        lemma_component_end(s, 0);
        let e = component_end(s, 0);
        assert(forall|j: int| 0 <= j < m ==> s[j] == c0[j] && s[j] != '/');
        assert(s[m] == '/');
        assert(e == m) by {
            if e < m {
                assert(s[e] == '/');
            }
            if e > m {
                assert(s[m] != '/');
            }
        }
        assert(s.subrange(0, m) =~= c0);
        assert(components_from(s, 0) == seq![c0] + components_from(s, m));
        assert(components_from(s, m) == components_from(s, m + 1));
        lemma_components_shift(x, t, 0);
        assert(components_from(s, m + 1) == components_from(x + t, x.len() as int));
        lemma_join_inverse(rest);
        assert(components_from(s, 0) =~= cs);
    }
}

} // verus!
