//! The source normalizer: rewrites permissive-dialect source into a form the
//! strict frontend accepts, without changing observable behavior.
//!
//! Ordered passes: strip version/precision directives line by line, comment
//! out user declarations of the well-known implicit uniforms, give the
//! well-known varyings explicit locations, then prepend the canonical header.

use vstd::prelude::*;
use crate::text::{chars_of, replace_all, replace_all_vec, starts_with, vec_starts_with};

verus! {

/// Index of the first newline in `s`, or `s.len()` when there is none.
pub open spec fn first_nl(s: Seq<char>) -> int
    decreases s.len(),
{
    if s.len() == 0 {
        0
    } else if s[0] == '\n' {
        0
    } else {
        1 + first_nl(s.drop_first())
    }
}

/// A line as `str::lines` yields it: a carriage return that stood just before
/// the terminating newline is not part of the line.
pub open spec fn drop_trailing_cr(l: Seq<char>) -> Seq<char> {
    if l.len() > 0 && l.last() == '\r' {
        l.drop_last()
    } else {
        l
    }
}

/// The lines of `s`: terminators are `\n` (or `\r\n`) and belong to no line;
/// the final line needs no terminator; empty text has no lines.
pub open spec fn lines_of(s: Seq<char>) -> Seq<Seq<char>>
    decreases s.len(),
    via lines_of_decreases
{
    if s.len() == 0 {
        Seq::empty()
    } else {
        let k = first_nl(s);
        if k == s.len() {
            seq![s]
        } else {
            seq![drop_trailing_cr(s.take(k))] + lines_of(s.skip(k + 1))
        }
    }
}

#[via_fn]
proof fn lines_of_decreases(s: Seq<char>) {
    lemma_first_nl_bounds(s);
}

/// The given lines joined with single newlines.
pub open spec fn join_lines(ls: Seq<Seq<char>>) -> Seq<char>
    decreases ls.len(),
{
    if ls.len() == 0 {
        Seq::empty()
    } else if ls.len() == 1 {
        ls[0]
    } else {
        ls[0] + seq!['\n'] + join_lines(ls.drop_first())
    }
}

/// A line survives the directive strip unless it declares an explicit
/// dialect version or an explicit precision.
pub open spec fn keeps_line(l: Seq<char>) -> bool {
    !starts_with(l, "#version"@) && !starts_with(l, "precision"@)
}

/// The lines that survive the directive strip, in order.
pub open spec fn kept_lines(ls: Seq<Seq<char>>) -> Seq<Seq<char>> {
    ls.filter(|l: Seq<char>| keeps_line(l))
}

/// The directive-stripping pass: drop every version or precision directive
/// line and join what is left with newlines.
pub open spec fn strip_directives(s: Seq<char>) -> Seq<char> {
    join_lines(kept_lines(lines_of(s)))
}

proof fn lemma_first_nl_bounds(s: Seq<char>)
    ensures
        0 <= first_nl(s) <= s.len(),
        forall|k: int| 0 <= k < first_nl(s) ==> s[k] != '\n',
        first_nl(s) < s.len() ==> s[first_nl(s)] == '\n',
    decreases s.len(),
{
    if s.len() == 0 {
    } else if s[0] == '\n' {
    } else {
        lemma_first_nl_bounds(s.drop_first());
        assert forall|k: int| 0 <= k < first_nl(s) implies s[k] != '\n' by {
            if k > 0 {
                assert(s.drop_first()[k - 1] != '\n');
            }
        }
    }
}

proof fn lemma_first_nl_concat(a: Seq<char>, b: Seq<char>)
    requires
        forall|k: int| 0 <= k < a.len() ==> a[k] != '\n',
        b.len() > 0,
        b[0] == '\n',
    ensures
        first_nl(a + b) == a.len(),
    decreases a.len(),
{
    if a.len() == 0 {
        assert(a + b =~= b);
    } else {
        assert((a + b)[0] == a[0]);
        assert((a + b).drop_first() =~= a.drop_first() + b);
        lemma_first_nl_concat(a.drop_first(), b);
    }
}

proof fn lemma_lines_head(cur: Seq<char>, rest: Seq<char>)
    requires
        forall|k: int| 0 <= k < cur.len() ==> cur[k] != '\n',
    ensures
        lines_of(cur + seq!['\n'] + rest) == seq![drop_trailing_cr(cur)] + lines_of(rest),
{
    let s = cur + seq!['\n'] + rest;
    assert(s =~= cur + (seq!['\n'] + rest));
    lemma_first_nl_concat(cur, seq!['\n'] + rest);
    let k = first_nl(s);
    assert(k == cur.len());
    assert(s.take(k) =~= cur);
    assert(s.skip(k + 1) =~= rest);
}

proof fn lemma_lines_no_nl(cur: Seq<char>)
    requires
        forall|k: int| 0 <= k < cur.len() ==> cur[k] != '\n',
    ensures
        lines_of(cur) == if cur.len() == 0 { Seq::<Seq<char>>::empty() } else { seq![cur] },
{
    lemma_first_nl_bounds(cur);
    if cur.len() > 0 {
        assert(first_nl(cur) == cur.len());
    }
}

proof fn lemma_join_push(ks: Seq<Seq<char>>, l: Seq<char>)
    ensures
        join_lines(ks.push(l)) == if ks.len() == 0 {
            l
        } else {
            join_lines(ks) + seq!['\n'] + l
        },
    decreases ks.len(),
{
    if ks.len() == 0 {
        assert(ks.push(l).len() == 1);
        assert(ks.push(l)[0] == l);
    } else {
        assert(ks.push(l).drop_first() =~= ks.drop_first().push(l));
        lemma_join_push(ks.drop_first(), l);
        if ks.len() == 1 {
            assert(join_lines(ks) == ks[0]);
            assert(join_lines(ks.push(l)) == ks[0] + seq!['\n'] + l);
        } else {
            assert(join_lines(ks.push(l)) == ks[0] + seq!['\n'] + (join_lines(ks.drop_first())
                + seq!['\n'] + l));
            assert(ks[0] + seq!['\n'] + (join_lines(ks.drop_first()) + seq!['\n'] + l) =~= (ks[0]
                + seq!['\n'] + join_lines(ks.drop_first())) + seq!['\n'] + l);
        }
    }
}

proof fn lemma_filter_push<A>(xs: Seq<A>, l: A, pred: spec_fn(A) -> bool)
    ensures
        xs.push(l).filter(pred) == if pred(l) {
            xs.filter(pred).push(l)
        } else {
            xs.filter(pred)
        },
{
    reveal(Seq::filter);
    assert(xs.push(l).drop_last() =~= xs);
    assert(xs.push(l).last() == l);
}

/// Split text into its lines.
fn split_lines(v: &Vec<char>) -> (r: Vec<Vec<char>>)
    ensures
        r.deep_view() == lines_of(v@),
{
    let n = v.len();
    let mut r: Vec<Vec<char>> = Vec::new();
    let mut cur: Vec<char> = Vec::new();
    let mut i: usize = 0;
    proof {
        assert(cur@ + v@.skip(0) =~= v@);
    }
    while i < n
        invariant
            n == v@.len(),
            i <= n,
            forall|k: int| 0 <= k < cur@.len() ==> cur@[k] != '\n',
            lines_of(v@) == r.deep_view() + lines_of(cur@ + v@.skip(i as int)),
        decreases n - i,
    {
        let c = v[i];
        let ghost prev_cur = cur@;
        let ghost prev_r = r.deep_view();
        if c == '\n' {
            proof {
                assert(prev_cur + v@.skip(i as int) =~= prev_cur + seq!['\n'] + v@.skip(
                    i as int + 1,
                ));
                lemma_lines_head(prev_cur, v@.skip(i as int + 1));
            }
            if cur.len() > 0 && cur[cur.len() - 1] == '\r' {
                cur.pop();
                proof {
                    assert(cur@ =~= drop_trailing_cr(prev_cur));
                }
            }
            proof {
                assert(cur@ == drop_trailing_cr(prev_cur));
            }
            r.push(cur);
            cur = Vec::new();
            proof {
                assert(r.deep_view() =~~= prev_r.push(drop_trailing_cr(prev_cur)));
                assert(prev_r + (seq![drop_trailing_cr(prev_cur)] + lines_of(v@.skip(i as int + 1)))
                    =~= prev_r.push(drop_trailing_cr(prev_cur)) + lines_of(v@.skip(i as int + 1)));
                assert(cur@ + v@.skip(i as int + 1) =~= v@.skip(i as int + 1));
            }
        } else {
            cur.push(c);
            proof {
                assert(cur@ + v@.skip(i as int + 1) =~= prev_cur + v@.skip(i as int));
            }
        }
        i += 1;
    }
    proof {
        assert(cur@ + v@.skip(n as int) =~= cur@);
        lemma_lines_no_nl(cur@);
    }
    if cur.len() > 0 {
        let ghost prev_r = r.deep_view();
        let ghost last = cur@;
        r.push(cur);
        proof {
            assert(r.deep_view() =~~= prev_r.push(last));
            assert(prev_r + seq![last] =~= prev_r.push(last));
        }
    } else {
        proof {
            assert(r.deep_view() + Seq::<Seq<char>>::empty() =~= r.deep_view());
        }
    }
    r
}

/// Join the lines that survive the directive strip with newlines.
fn join_kept(lines: &Vec<Vec<char>>) -> (r: Vec<char>)
    ensures
        r@ == join_lines(kept_lines(lines.deep_view())),
{
    let ver_pat = chars_of("#version");
    let pre_pat = chars_of("precision");
    let n = lines.len();
    let mut r: Vec<char> = Vec::new();
    let mut emitted = false;
    let mut j: usize = 0;
    proof {
        assert(lines.deep_view().take(0) =~= Seq::<Seq<char>>::empty());
        reveal(Seq::filter);
    }
    while j < n
        invariant
            n == lines@.len(),
            j <= n,
            ver_pat@ == "#version"@,
            pre_pat@ == "precision"@,
            emitted == (kept_lines(lines.deep_view().take(j as int)).len() > 0),
            r@ == join_lines(kept_lines(lines.deep_view().take(j as int))),
        decreases n - j,
    {
        let line = &lines[j];
        let ghost dv = lines.deep_view();
        let ghost ks = kept_lines(dv.take(j as int));
        proof {
            assert(dv[j as int] =~= lines@[j as int]@);
            assert(dv.take(j as int + 1) =~= dv.take(j as int).push(dv[j as int]));
            lemma_filter_push(dv.take(j as int), dv[j as int], |l: Seq<char>| keeps_line(l));
        }
        let keep = !vec_starts_with(line, &ver_pat) && !vec_starts_with(line, &pre_pat);
        if keep {
            let ghost prev = r@;
            if emitted {
                r.push('\n');
                proof {
                    assert(r@ =~= prev + seq!['\n']);
                }
            }
            let ghost mid = r@;
            r.extend_from_slice(line.as_slice());
            proof {
                assert(r@ =~= mid + dv[j as int]);
                lemma_join_push(ks, dv[j as int]);
                if ks.len() > 0 {
                    assert(r@ =~= (prev + seq!['\n']) + dv[j as int]);
                    assert(join_lines(ks.push(dv[j as int])) == join_lines(ks) + seq!['\n']
                        + dv[j as int]);
                    assert(r@ =~= join_lines(ks) + seq!['\n'] + dv[j as int]);
                }
            }
            emitted = true;
        }
        j += 1;
    }
    proof {
        assert(lines.deep_view().take(n as int) =~= lines.deep_view());
    }
    r
}

/// The directive-stripping pass, on character vectors.
pub fn strip_directives_vec(v: &Vec<char>) -> (r: Vec<char>)
    ensures
        r@ == strip_directives(v@),
{
    let lines = split_lines(v);
    join_kept(&lines)
}

/// The exact textual form of the well-known time-uniform declaration.
pub open spec fn time_uniform_decl() -> Seq<char> {
    "uniform float uTime;"@
}

/// The exact textual form of the well-known resolution-uniform declaration.
pub open spec fn resolution_uniform_decl() -> Seq<char> {
    "uniform vec2 uResolution;"@
}

/// A declaration turned into a no-op: commented out, line numbers preserved.
pub open spec fn commented(decl: Seq<char>) -> Seq<char> {
    "// "@ + decl
}

/// The canonical header the normalizer injects: a strict version directive
/// and one uniform block at set 0, binding 0 holding exactly the well-known
/// implicit uniforms, in fixed field order.
pub open spec fn canonical_header() -> Seq<char> {
    "#version 450\nlayout(std140, set=0, binding=0) uniform Globals {\n    float uTime;\n    vec2 uResolution;\n};\n"@
}

/// The declaration-rewriting passes, in order: neutralize user declarations
/// of the well-known uniforms, then give the well-known varyings their fixed
/// explicit locations.
pub open spec fn rewrite_decls(s: Seq<char>) -> Seq<char> {
    let s1 = replace_all(s, time_uniform_decl(), commented(time_uniform_decl()));
    let s2 = replace_all(s1, resolution_uniform_decl(), commented(resolution_uniform_decl()));
    let s3 = replace_all(s2, "in vec2 vUv;"@, "layout(location=0) in vec2 vUv;"@);
    let s4 = replace_all(s3, "in vec3 vNormal;"@, "layout(location=1) in vec3 vNormal;"@);
    replace_all(s4, "in vec3 vViewPosition;"@, "layout(location=2) in vec3 vViewPosition;"@)
}

/// The whole normalization: canonical header, then the stripped and
/// rewritten body. Total: it always yields some text.
pub open spec fn normalize_glsl_spec(s: Seq<char>) -> Seq<char> {
    canonical_header() + rewrite_decls(strip_directives(s))
}

/// Normalize permissive-dialect source text.
pub fn normalize_glsl(code: &Vec<char>) -> (r: Vec<char>)
    ensures
        r@ == normalize_glsl_spec(code@),
{
    let stripped = strip_directives_vec(code);
    proof {
        reveal_strlit("uniform float uTime;");
        reveal_strlit("// uniform float uTime;");
        reveal_strlit("uniform vec2 uResolution;");
        reveal_strlit("// uniform vec2 uResolution;");
        reveal_strlit("in vec2 vUv;");
        reveal_strlit("in vec3 vNormal;");
        reveal_strlit("in vec3 vViewPosition;");
        reveal_strlit("// ");
        assert("// uniform float uTime;"@ =~= commented(time_uniform_decl()));
        assert("// uniform vec2 uResolution;"@ =~= commented(resolution_uniform_decl()));
    }
    let s1 = replace_all_vec(
        &stripped,
        &chars_of("uniform float uTime;"),
        &chars_of("// uniform float uTime;"),
    );
    let s2 = replace_all_vec(
        &s1,
        &chars_of("uniform vec2 uResolution;"),
        &chars_of("// uniform vec2 uResolution;"),
    );
    let s3 = replace_all_vec(
        &s2,
        &chars_of("in vec2 vUv;"),
        &chars_of("layout(location=0) in vec2 vUv;"),
    );
    let s4 = replace_all_vec(
        &s3,
        &chars_of("in vec3 vNormal;"),
        &chars_of("layout(location=1) in vec3 vNormal;"),
    );
    let body = replace_all_vec(
        &s4,
        &chars_of("in vec3 vViewPosition;"),
        &chars_of("layout(location=2) in vec3 vViewPosition;"),
    );
    let mut out = chars_of(
        "#version 450\nlayout(std140, set=0, binding=0) uniform Globals {\n    float uTime;\n    vec2 uResolution;\n};\n",
    );
    out.extend_from_slice(body.as_slice());
    proof {
        assert(out@ =~= canonical_header() + rewrite_decls(strip_directives(code@)));
    }
    out
}

} // verus!
