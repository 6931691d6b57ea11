//! Proved properties of the conversion pipeline and of the normalizer.

use vstd::prelude::*;
use crate::{conversion_post, ConversionOutput};
use crate::text::{occurs_at, replace_all, starts_with};
use crate::normalize::{
    canonical_header, commented, normalize_glsl_spec, resolution_uniform_decl, rewrite_decls,
    time_uniform_decl,
};

verus! {

/// Every occurrence of `decl` in `t` stands right after the comment opener
/// `"// "`, and is therefore inert.
pub open spec fn all_occurrences_commented(t: Seq<char>, decl: Seq<char>) -> bool {
    forall|i: int|
        occurs_at(t, decl, i) ==> i >= 3 && t.subrange(i - 3, i) == "// "@
}

/// If a suffix `p.skip(m)` of the slash-free pattern is a prefix of the
/// rewritten text, it was already a prefix of the original text: the
/// rewriting inserts `"// "`, whose slash the pattern cannot contain.
proof fn lemma_pattern_suffix_prefix(sp: Seq<char>, p: Seq<char>, m: int)
    requires
        p.len() > 0,
        forall|j: int| 0 <= j < p.len() ==> p[j] != '/',
        1 <= m < p.len(),
        starts_with(replace_all(sp, p, commented(p)), p.skip(m)),
    ensures
        starts_with(sp, p.skip(m)),
    decreases sp.len(),
{
    reveal_strlit("// ");
    let cmt = commented(p);
    let q = p.skip(m);
    let out = replace_all(sp, p, cmt);
    assert(out.take(q.len() as int) == q);
    if sp.len() < p.len() {
        // out == sp
    } else if sp.take(p.len() as int) == p {
        assert(out == cmt + replace_all(sp.skip(p.len() as int), p, cmt));
        assert(q[0] == out[0]);
        assert(out[0] == cmt[0]);
        assert(cmt[0] == '/');
        assert(q[0] == p[m]);
        assert(false);
    } else {
        let rest = replace_all(sp.skip(1), p, cmt);
        assert(out == seq![sp[0]] + rest);
        assert(q[0] == out[0]);
        assert(out[0] == sp[0]);
        if m + 1 < p.len() {
            assert(starts_with(rest, p.skip(m + 1))) by {
                assert(rest.take(p.len() - (m + 1)) =~= out.take(q.len() as int).skip(1));
                assert(out.take(q.len() as int).skip(1) =~= q.skip(1));
                assert(q.skip(1) =~= p.skip(m + 1));
            }
            lemma_pattern_suffix_prefix(sp.skip(1), p, m + 1);
            assert(sp.take(q.len() as int) =~= q) by {
                assert(sp.skip(1).take(p.len() - (m + 1)) == p.skip(m + 1));
                assert forall|x: int| 0 <= x < q.len() implies sp.take(q.len() as int)[x] == q[x]
                by {
                    if x > 0 {
                        assert(sp.skip(1).take(p.len() - (m + 1))[x - 1] == p.skip(m + 1)[x - 1]);
                    }
                }
            }
        } else {
            assert(q =~= seq![p[m]]);
            assert(sp.take(1) =~= seq![sp[0]]);
        }
    }
}

/// Replacing every occurrence of `p` by `"// " + p` leaves no occurrence of
/// `p` that is not immediately preceded by `"// "`. Needs: `p` holds no
/// slash, does not begin with a blank, and no proper suffix of `p` is a
/// prefix of `p`.
proof fn lemma_replace_comments(s: Seq<char>, p: Seq<char>)
    requires
        p.len() > 0,
        p[0] != ' ',
        forall|j: int| 0 <= j < p.len() ==> p[j] != '/',
        forall|k: int| 1 <= k < p.len() ==> p.skip(k) != p.take(p.len() - k),
    ensures
        all_occurrences_commented(replace_all(s, p, commented(p)), p),
    decreases s.len(),
{
    reveal_strlit("// ");
    let cmt = commented(p);
    let plen = p.len() as int;
    let clen = cmt.len() as int;
    assert(clen == plen + 3);
    assert(cmt[0] == '/' && cmt[1] == '/' && cmt[2] == ' ');
    assert(forall|j: int| 0 <= j < plen ==> cmt[3 + j] == p[j]);
    let out = replace_all(s, p, cmt);
    if s.len() < p.len() {
        assert forall|i: int| occurs_at(out, p, i) implies i >= 3 && out.subrange(i - 3, i)
            == "// "@ by {
            assert(i + plen <= out.len());
            assert(false);
        }
    } else if s.take(plen) == p {
        let rest = replace_all(s.skip(plen), p, cmt);
        lemma_replace_comments(s.skip(plen), p);
        assert(out == cmt + rest);
        assert forall|i: int| occurs_at(out, p, i) implies i >= 3 && out.subrange(i - 3, i)
            == "// "@ by {
            assert(out.subrange(i, i + plen) == p);
            if i < 3 {
                assert(p[0] == out[i]);
                assert(out[i] == cmt[i]);
                assert(false);
            } else if i + plen <= clen {
                // inside the inserted comment block: only the commented copy
                assert(i == 3);
                assert(out.subrange(0, 3) =~= "// "@);
            } else if i < clen {
                // would span the inserted block and what follows: a proper
                // suffix of p would have to be a prefix of p
                let k = i - 3;
                assert(1 <= k < plen);
                assert(p.skip(k) =~= p.take(plen - k)) by {
                    assert forall|x: int| 0 <= x < plen - k implies p.skip(k)[x] == p.take(
                        plen - k,
                    )[x] by {
                        assert(out[i + x] == cmt[i + x]);
                        assert(cmt[i + x] == p[k + x]);
                        assert(out[i + x] == out.subrange(i, i + plen)[x]);
                    }
                }
                assert(false);
            } else {
                // wholly inside the rewritten remainder
                assert(occurs_at(rest, p, i - clen)) by {
                    assert(rest.subrange(i - clen, i - clen + plen) =~= out.subrange(i, i + plen));
                }
                assert(i - clen >= 3);
                assert(out.subrange(i - 3, i) =~= rest.subrange(i - clen - 3, i - clen));
            }
        }
    } else {
        let rest = replace_all(s.skip(1), p, cmt);
        lemma_replace_comments(s.skip(1), p);
        assert(out == seq![s[0]] + rest);
        assert forall|i: int| occurs_at(out, p, i) implies i >= 3 && out.subrange(i - 3, i)
            == "// "@ by {
            assert(out.subrange(i, i + plen) == p);
            if i >= 1 {
                assert(occurs_at(rest, p, i - 1)) by {
                    assert(rest.subrange(i - 1, i - 1 + plen) =~= out.subrange(i, i + plen));
                }
                assert(i - 1 >= 3);
                assert(out.subrange(i - 3, i) =~= rest.subrange(i - 4, i - 1));
            } else {
                // an occurrence at the copied head character would mean the
                // pattern already stood at the head of s
                assert(p[0] == out[0]);
                assert(out[0] == s[0]);
                assert(starts_with(rest, p.skip(1))) by {
                    assert(rest.take(plen - 1) =~= out.subrange(i, i + plen).skip(1));
                }
                if p.len() > 1 {
                    lemma_pattern_suffix_prefix(s.skip(1), p, 1);
                    assert(s.take(plen) =~= p) by {
                        assert(s.skip(1).take(plen - 1) == p.skip(1));
                        assert forall|x: int| 0 <= x < plen implies s.take(plen)[x] == p[x] by {
                            if x > 0 {
                                assert(s.skip(1).take(plen - 1)[x - 1] == p.skip(1)[x - 1]);
                            }
                        }
                    }
                } else {
                    assert(s.take(1) =~= seq![s[0]]);
                    assert(p =~= seq![p[0]]);
                }
                assert(false);
            }
        }
    }
}

/// One splice step: in `c + q + t2`, replacing the occurrence of `q` by `rq`
/// cannot uncomment or create an occurrence of `p`, provided the semicolon
/// that ends `p`, `q` and `rq` is the only one each holds, `p` and `q` hold
/// no slash, and `rq` neither contains `p` nor aligns with it at its head.
proof fn lemma_splice_keeps_commented(
    c: Seq<char>,
    t2: Seq<char>,
    p: Seq<char>,
    q: Seq<char>,
    rq: Seq<char>,
)
    requires
        all_occurrences_commented(c + q + t2, p),
        p.len() > 0,
        q.len() > 0,
        rq.len() >= p.len(),
        p.last() == ';',
        forall|j: int| 0 <= j < p.len() - 1 ==> p[j] != ';',
        forall|j: int| 0 <= j < p.len() ==> p[j] != '/',
        q.last() == ';',
        forall|j: int| 0 <= j < q.len() ==> q[j] != '/',
        rq.last() == ';',
        forall|j: int| 0 <= j < rq.len() - 1 ==> rq[j] != ';',
        rq[rq.len() - p.len()] != p[0],
    ensures
        all_occurrences_commented(c + rq + t2, p),
{
    reveal_strlit("// ");
    let old_t = c + q + t2;
    let new_t = c + rq + t2;
    let plen = p.len() as int;
    let clen = c.len() as int;
    let qlen = q.len() as int;
    let rqlen = rq.len() as int;
    assert forall|i: int| occurs_at(new_t, p, i) implies i >= 3 && new_t.subrange(i - 3, i)
        == "// "@ by {
        assert(new_t.subrange(i, i + plen) == p);
        assert(forall|m: int| 0 <= m < plen ==> p[m] == new_t[i + m]);
        if i + plen <= clen {
            // wholly inside the untouched left part
            assert(occurs_at(old_t, p, i)) by {
                assert(old_t.subrange(i, i + plen) =~= new_t.subrange(i, i + plen));
            }
            assert(new_t.subrange(i - 3, i) =~= old_t.subrange(i - 3, i));
        } else if i < clen {
            // would cross from the left part into the replacement
            let x = clen - i;
            assert(p.skip(x) =~= rq.take(plen - x)) by {
                assert forall|m: int| 0 <= m < plen - x implies p.skip(x)[m] == rq.take(
                    plen - x,
                )[m] by {
                    assert(p[x + m] == new_t[clen + m]);
                    assert(new_t[clen + m] == rq[m]);
                }
            }
            assert(p.skip(x).last() == p[plen - 1]);
            assert(rq.take(plen - x)[plen - x - 1] == rq[plen - x - 1]);
            assert(rq[plen - x - 1] == ';');
            assert(plen - x - 1 < rqlen - 1);
            assert(false);
        } else if i + plen <= clen + rqlen {
            // wholly inside the replacement
            assert(occurs_at(rq, p, i - clen)) by {
                assert(rq.subrange(i - clen, i - clen + plen) =~= new_t.subrange(i, i + plen));
            }
            let x = i - clen;
            assert(p[plen - 1] == rq[x + plen - 1]);
            assert(x + plen - 1 == rqlen - 1);
            assert(p[0] == rq[rqlen - plen]);
            assert(false);
        } else if i < clen + rqlen {
            // would cross from the replacement into the right part
            let x = i - clen;
            assert(rq.skip(x) =~= p.take(rqlen - x)) by {
                assert forall|m: int| 0 <= m < rqlen - x implies rq.skip(x)[m] == p.take(
                    rqlen - x,
                )[m] by {
                    assert(p[m] == new_t[i + m]);
                    assert(new_t[i + m] == rq[x + m]);
                }
            }
            assert(rq.skip(x)[rqlen - x - 1] == rq[rqlen - 1]);
            assert(p.take(rqlen - x)[rqlen - x - 1] == p[rqlen - x - 1]);
            assert(rqlen - x - 1 < plen - 1);
            assert(p[rqlen - x - 1] == ';');
            assert(false);
        } else {
            // wholly inside the untouched right part
            let i_old = i - rqlen + qlen;
            assert(occurs_at(old_t, p, i_old)) by {
                assert forall|m: int| 0 <= m < plen implies old_t.subrange(i_old, i_old + plen)[m]
                    == p[m] by {
                    assert(old_t[i_old + m] == t2[i + m - clen - rqlen]);
                    assert(new_t[i + m] == t2[i + m - clen - rqlen]);
                }
                assert(old_t.subrange(i_old, i_old + plen) =~= p);
            }
            assert(i_old >= 3 && old_t.subrange(i_old - 3, i_old) == "// "@);
            // the comment opener cannot dip into `q`: its characters are
            // slashes and a blank, and `q` ends with the semicolon
            assert(i_old - 3 >= clen + qlen) by {
                if i_old - 3 < clen + qlen {
                    assert(old_t[clen + qlen - 1] == q[qlen - 1]);
                    assert(i_old - 3 <= clen + qlen - 1 < i_old);
                    assert(old_t.subrange(i_old - 3, i_old)[clen + qlen - 1 - (i_old - 3)]
                        == old_t[clen + qlen - 1]);
                }
            }
            assert(new_t.subrange(i - 3, i) =~= old_t.subrange(i_old - 3, i_old)) by {
                assert forall|m: int| 0 <= m < 3 implies #[trigger] new_t.subrange(i - 3, i)[m]
                    == old_t.subrange(i_old - 3, i_old)[m] by {
                    assert(old_t[i_old - 3 + m] == t2[i_old - 3 + m - clen - qlen]);
                    assert(new_t[i - 3 + m] == t2[i - 3 + m - clen - rqlen]);
                }
            }
        }
    }
}

/// Rewriting some other declaration `q` into `rq` keeps every occurrence of
/// `p` commented out, over the whole left-to-right sweep: `c` is the part of
/// the text already swept.
proof fn lemma_rewrite_keeps_commented(
    c: Seq<char>,
    t: Seq<char>,
    p: Seq<char>,
    q: Seq<char>,
    rq: Seq<char>,
)
    requires
        all_occurrences_commented(c + t, p),
        p.len() > 0,
        q.len() > 0,
        rq.len() >= p.len(),
        p.last() == ';',
        forall|j: int| 0 <= j < p.len() - 1 ==> p[j] != ';',
        forall|j: int| 0 <= j < p.len() ==> p[j] != '/',
        q.last() == ';',
        forall|j: int| 0 <= j < q.len() ==> q[j] != '/',
        rq.last() == ';',
        forall|j: int| 0 <= j < rq.len() - 1 ==> rq[j] != ';',
        rq[rq.len() - p.len()] != p[0],
    ensures
        all_occurrences_commented(c + replace_all(t, q, rq), p),
    decreases t.len(),
{
    let qlen = q.len() as int;
    if t.len() < q.len() {
        // nothing left to rewrite
    } else if t.take(qlen) == q {
        let t2 = t.skip(qlen);
        assert(c + t =~= (c + q) + t2);
        lemma_splice_keeps_commented(c, t2, p, q, rq);
        assert((c + rq) + t2 =~= c + rq + t2);
        lemma_rewrite_keeps_commented(c + rq, t2, p, q, rq);
        assert(c + replace_all(t, q, rq) =~= (c + rq) + replace_all(t2, q, rq));
    } else {
        let t2 = t.skip(1);
        assert((c + seq![t[0]]) + t2 =~= c + t);
        lemma_rewrite_keeps_commented(c + seq![t[0]], t2, p, q, rq);
        assert(c + replace_all(t, q, rq) =~= (c + seq![t[0]]) + replace_all(t2, q, rq));
    }
}

/// Law: after the pass that neutralizes user declarations of the well-known
/// time uniform, every occurrence of that declaration left in the text is
/// commented out.
pub proof fn lemma_time_uniform_neutralized(s: Seq<char>)
    ensures
        all_occurrences_commented(
            replace_all(s, time_uniform_decl(), commented(time_uniform_decl())),
            time_uniform_decl(),
        ),
{
    reveal_strlit("uniform float uTime;");
    let p = time_uniform_decl();
    assert(p.len() == 20);
    lemma_decl_no_border(p);
    lemma_replace_comments(s, p);
}

/// Law: after the pass that neutralizes user declarations of the well-known
/// resolution uniform, every occurrence of that declaration left in the text
/// is commented out.
pub proof fn lemma_resolution_uniform_neutralized(s: Seq<char>)
    ensures
        all_occurrences_commented(
            replace_all(s, resolution_uniform_decl(), commented(resolution_uniform_decl())),
            resolution_uniform_decl(),
        ),
{
    reveal_strlit("uniform vec2 uResolution;");
    let p = resolution_uniform_decl();
    assert(p.len() == 25);
    lemma_decl_no_border(p);
    lemma_replace_comments(s, p);
}

/// A rewrite pass applied to the whole text keeps every occurrence of `p`
/// commented out.
proof fn lemma_pass_keeps_commented(t: Seq<char>, p: Seq<char>, q: Seq<char>, rq: Seq<char>)
    requires
        all_occurrences_commented(t, p),
        p.len() > 0,
        q.len() > 0,
        rq.len() >= p.len(),
        p.last() == ';',
        forall|j: int| 0 <= j < p.len() - 1 ==> p[j] != ';',
        forall|j: int| 0 <= j < p.len() ==> p[j] != '/',
        q.last() == ';',
        forall|j: int| 0 <= j < q.len() ==> q[j] != '/',
        rq.last() == ';',
        forall|j: int| 0 <= j < rq.len() - 1 ==> rq[j] != ';',
        rq[rq.len() - p.len()] != p[0],
    ensures
        all_occurrences_commented(replace_all(t, q, rq), p),
{
    assert(Seq::<char>::empty() + t =~= t);
    lemma_rewrite_keeps_commented(Seq::empty(), t, p, q, rq);
    assert(Seq::<char>::empty() + replace_all(t, q, rq) =~= replace_all(t, q, rq));
}

/// The textual facts the pass lemmas need of the three varying rewrites: each
/// pattern holds no slash and ends with its only semicolon, and so does each
/// replacement.
proof fn lemma_varying_strings_facts()
    ensures
        "in vec2 vUv;"@.len() == 12,
        "in vec2 vUv;"@.last() == ';',
        forall|j: int| 0 <= j < 12 ==> "in vec2 vUv;"@[j] != '/',
        "layout(location=0) in vec2 vUv;"@.len() == 31,
        "layout(location=0) in vec2 vUv;"@.last() == ';',
        forall|j: int| 0 <= j < 30 ==> "layout(location=0) in vec2 vUv;"@[j] != ';',
        "in vec3 vNormal;"@.len() == 16,
        "in vec3 vNormal;"@.last() == ';',
        forall|j: int| 0 <= j < 16 ==> "in vec3 vNormal;"@[j] != '/',
        "layout(location=1) in vec3 vNormal;"@.len() == 35,
        "layout(location=1) in vec3 vNormal;"@.last() == ';',
        forall|j: int| 0 <= j < 34 ==> "layout(location=1) in vec3 vNormal;"@[j] != ';',
        "in vec3 vViewPosition;"@.len() == 22,
        "in vec3 vViewPosition;"@.last() == ';',
        forall|j: int| 0 <= j < 22 ==> "in vec3 vViewPosition;"@[j] != '/',
        "layout(location=2) in vec3 vViewPosition;"@.len() == 41,
        "layout(location=2) in vec3 vViewPosition;"@.last() == ';',
        forall|j: int| 0 <= j < 40 ==> "layout(location=2) in vec3 vViewPosition;"@[j] != ';',
{
    reveal_strlit("in vec2 vUv;");
    reveal_strlit("layout(location=0) in vec2 vUv;");
    reveal_strlit("in vec3 vNormal;");
    reveal_strlit("layout(location=1) in vec3 vNormal;");
    reveal_strlit("in vec3 vViewPosition;");
    reveal_strlit("layout(location=2) in vec3 vViewPosition;");
}

/// The textual facts the pass lemmas need of the two uniform declarations
/// and their commented forms.
proof fn lemma_uniform_strings_facts()
    ensures
        time_uniform_decl().len() == 20,
        time_uniform_decl()[0] == 'u',
        time_uniform_decl().last() == ';',
        forall|j: int| 0 <= j < 19 ==> time_uniform_decl()[j] != ';',
        forall|j: int| 0 <= j < 20 ==> time_uniform_decl()[j] != '/',
        resolution_uniform_decl().len() == 25,
        resolution_uniform_decl()[0] == 'u',
        resolution_uniform_decl().last() == ';',
        forall|j: int| 0 <= j < 24 ==> resolution_uniform_decl()[j] != ';',
        forall|j: int| 0 <= j < 25 ==> resolution_uniform_decl()[j] != '/',
        commented(resolution_uniform_decl()).len() == 28,
        commented(resolution_uniform_decl()).last() == ';',
        forall|j: int| 0 <= j < 27 ==> commented(resolution_uniform_decl())[j] != ';',
{
    reveal_strlit("uniform float uTime;");
    reveal_strlit("uniform vec2 uResolution;");
    reveal_strlit("// ");
    let res = resolution_uniform_decl();
    let cres = commented(res);
    assert(cres.last() == res[24]);
    assert forall|j: int| 0 <= j < 27 implies cres[j] != ';' by {
        if j >= 3 {
            assert(cres[j] == res[j - 3]);
        } else {
            assert(cres[j] == "// "@[j]);
        }
    }
}

/// Law: in the body the declaration-rewriting passes produce, every
/// occurrence of the well-known time-uniform declaration is commented out:
/// the canonical header's declaration of it is the only live one, so
/// injecting the header cannot set up a duplicate declaration of it.
pub proof fn lemma_rewritten_body_neutralizes_time_uniform(s: Seq<char>)
    ensures
        all_occurrences_commented(rewrite_decls(s), time_uniform_decl()),
{
    let p = time_uniform_decl();
    let res = resolution_uniform_decl();
    lemma_uniform_strings_facts();
    lemma_varying_strings_facts();
    let s1 = replace_all(s, p, commented(p));
    lemma_time_uniform_neutralized(s);
    assert(commented(res)[8] == res[5]) by {
        reveal_strlit("// ");
    }
    assert(res[5] != 'u') by {
        reveal_strlit("uniform vec2 uResolution;");
    }
    lemma_pass_keeps_commented(s1, p, res, commented(res));
    let s2 = replace_all(s1, res, commented(res));
    let s3 = replace_all(s2, "in vec2 vUv;"@, "layout(location=0) in vec2 vUv;"@);
    assert("layout(location=0) in vec2 vUv;"@[11] != 'u') by {
        reveal_strlit("layout(location=0) in vec2 vUv;");
    }
    lemma_pass_keeps_commented(s2, p, "in vec2 vUv;"@, "layout(location=0) in vec2 vUv;"@);
    let s4 = replace_all(s3, "in vec3 vNormal;"@, "layout(location=1) in vec3 vNormal;"@);
    assert("layout(location=1) in vec3 vNormal;"@[15] != 'u') by {
        reveal_strlit("layout(location=1) in vec3 vNormal;");
    }
    lemma_pass_keeps_commented(s3, p, "in vec3 vNormal;"@, "layout(location=1) in vec3 vNormal;"@);
    assert("layout(location=2) in vec3 vViewPosition;"@[21] != 'u') by {
        reveal_strlit("layout(location=2) in vec3 vViewPosition;");
    }
    lemma_pass_keeps_commented(
        s4,
        p,
        "in vec3 vViewPosition;"@,
        "layout(location=2) in vec3 vViewPosition;"@,
    );
}

/// Law: in the body the declaration-rewriting passes produce, every
/// occurrence of the well-known resolution-uniform declaration is commented
/// out: the canonical header's declaration of it is the only live one, so
/// injecting the header cannot set up a duplicate declaration of it.
pub proof fn lemma_rewritten_body_neutralizes_resolution_uniform(s: Seq<char>)
    ensures
        all_occurrences_commented(rewrite_decls(s), resolution_uniform_decl()),
{
    let p = time_uniform_decl();
    let res = resolution_uniform_decl();
    lemma_uniform_strings_facts();
    lemma_varying_strings_facts();
    let s1 = replace_all(s, p, commented(p));
    let s2 = replace_all(s1, res, commented(res));
    lemma_resolution_uniform_neutralized(s1);
    let s3 = replace_all(s2, "in vec2 vUv;"@, "layout(location=0) in vec2 vUv;"@);
    assert("layout(location=0) in vec2 vUv;"@[6] != 'u') by {
        reveal_strlit("layout(location=0) in vec2 vUv;");
    }
    lemma_pass_keeps_commented(s2, res, "in vec2 vUv;"@, "layout(location=0) in vec2 vUv;"@);
    let s4 = replace_all(s3, "in vec3 vNormal;"@, "layout(location=1) in vec3 vNormal;"@);
    assert("layout(location=1) in vec3 vNormal;"@[10] != 'u') by {
        reveal_strlit("layout(location=1) in vec3 vNormal;");
    }
    lemma_pass_keeps_commented(
        s3,
        res,
        "in vec3 vNormal;"@,
        "layout(location=1) in vec3 vNormal;"@,
    );
    assert("layout(location=2) in vec3 vViewPosition;"@[16] != 'u') by {
        reveal_strlit("layout(location=2) in vec3 vViewPosition;");
    }
    lemma_pass_keeps_commented(
        s4,
        res,
        "in vec3 vViewPosition;"@,
        "layout(location=2) in vec3 vViewPosition;"@,
    );
}

/// The textual facts that let an occurrence of either uniform declaration be
/// ruled out of the canonical header: the header spells "un" only inside its
/// own `uniform Globals` block declaration, which continues differently, and
/// it ends with a newline, which neither declaration contains.
proof fn lemma_header_facts()
    ensures
        canonical_header().len() == 106,
        canonical_header().last() == '\n',
        canonical_header()[46] == 'u',
        canonical_header()[47] == 'n',
        canonical_header()[54] == 'G',
        forall|j: int|
            0 <= j < 105 && #[trigger] canonical_header()[j] == 'u' && canonical_header()[j + 1]
                == 'n' ==> j == 46,
        forall|j: int| 0 <= j < 20 ==> time_uniform_decl()[j] != '\n',
        forall|j: int| 0 <= j < 25 ==> resolution_uniform_decl()[j] != '\n',
        time_uniform_decl()[1] == 'n',
        time_uniform_decl()[8] == 'f',
        resolution_uniform_decl()[1] == 'n',
        resolution_uniform_decl()[8] == 'v',
{
    reveal_strlit(
        "#version 450\nlayout(std140, set=0, binding=0) uniform Globals {\n    float uTime;\n    vec2 uResolution;\n};\n",
    );
    reveal_strlit("uniform float uTime;");
    reveal_strlit("uniform vec2 uResolution;");
}

/// Prepending the canonical header to a body that keeps every occurrence of
/// the declaration commented out yields a text that still does: the header
/// holds no occurrence of either declaration and cannot complete one.
proof fn lemma_header_keeps_commented(b: Seq<char>, p: Seq<char>)
    requires
        all_occurrences_commented(b, p),
        p.len() == 20 || p.len() == 25,
        p[0] == 'u',
        p[1] == 'n',
        p.len() == 20 ==> p == time_uniform_decl(),
        p.len() == 25 ==> p == resolution_uniform_decl(),
    ensures
        all_occurrences_commented(canonical_header() + b, p),
{
    reveal_strlit("// ");
    lemma_header_facts();
    let h = canonical_header();
    let t = h + b;
    let hlen = h.len() as int;
    let plen = p.len() as int;
    assert forall|i: int| occurs_at(t, p, i) implies i >= 3 && t.subrange(i - 3, i)
        == "// "@ by {
        assert(forall|m: int| 0 <= m < plen ==> p[m] == #[trigger] t.subrange(i, i + plen)[m]);
        assert(forall|m: int| 0 <= m < plen ==> #[trigger] t.subrange(i, i + plen)[m] == t[i
            + m]);
        if i + plen <= hlen {
            // inside the header: "un" pins the position, which then differs
            assert(t[i] == h[i] && t[i + 1] == h[i + 1]);
            assert(h[i] == 'u' && h[i + 1] == 'n');
            assert(i == 46);
            assert(t[i + 8] == h[54]);
            assert(p[8] == 'G');
            assert(false);
        } else if i < hlen {
            // would cross out of the header, over its final newline
            assert(t[hlen - 1] == h[hlen - 1]);
            assert(i <= hlen - 1 < i + plen);
            assert(p[hlen - 1 - i] == '\n');
            assert(false);
        } else {
            // inside the body, where every occurrence is commented
            assert(occurs_at(b, p, i - hlen)) by {
                assert(b.subrange(i - hlen, i - hlen + plen) =~= t.subrange(i, i + plen));
            }
            assert(i - hlen >= 3);
            assert(t.subrange(i - 3, i) =~= b.subrange(i - hlen - 3, i - hlen));
        }
    }
}

/// Law: in the full normalized output, every occurrence of the well-known
/// time-uniform declaration is commented out: the canonical header's own
/// declaration of the time uniform is the only one the strict frontend sees,
/// whatever the input source held.
pub proof fn lemma_normalized_output_neutralizes_time_uniform(s: Seq<char>)
    ensures
        all_occurrences_commented(normalize_glsl_spec(s), time_uniform_decl()),
{
    lemma_header_facts();
    lemma_uniform_strings_facts();
    lemma_rewritten_body_neutralizes_time_uniform(crate::normalize::strip_directives(s));
    lemma_header_keeps_commented(
        rewrite_decls(crate::normalize::strip_directives(s)),
        time_uniform_decl(),
    );
}

/// Law: in the full normalized output, every occurrence of the well-known
/// resolution-uniform declaration is commented out: the canonical header's
/// own declaration of the resolution uniform is the only one the strict
/// frontend sees, whatever the input source held.
pub proof fn lemma_normalized_output_neutralizes_resolution_uniform(s: Seq<char>)
    ensures
        all_occurrences_commented(normalize_glsl_spec(s), resolution_uniform_decl()),
{
    lemma_header_facts();
    lemma_uniform_strings_facts();
    lemma_rewritten_body_neutralizes_resolution_uniform(crate::normalize::strip_directives(s));
    lemma_header_keeps_commented(
        rewrite_decls(crate::normalize::strip_directives(s)),
        resolution_uniform_decl(),
    );
}

/// The shared side conditions of the two uniform declarations: no slash, no
/// leading blank, and — since the terminating semicolon is their only one —
/// no proper suffix that is also a prefix.
proof fn lemma_decl_no_border(p: Seq<char>)
    requires
        p.len() > 0,
        p[0] != ' ',
        p.last() == ';',
        forall|j: int| 0 <= j < p.len() - 1 ==> p[j] != ';',
        forall|j: int| 0 <= j < p.len() ==> p[j] != '/',
    ensures
        p[0] != ' ',
        forall|j: int| 0 <= j < p.len() ==> p[j] != '/',
        forall|k: int| 1 <= k < p.len() ==> p.skip(k) != p.take(p.len() - k),
{
    let plen = p.len() as int;
    assert forall|k: int| 1 <= k < plen implies p.skip(k) != p.take(plen - k) by {
        if p.skip(k) == p.take(plen - k) {
            assert(p.skip(k)[plen - k - 1] == p[plen - 1]);
            assert(p.take(plen - k)[plen - k - 1] == p[plen - k - 1]);
            assert(p[plen - k - 1] == ';');
        }
    }
}

/// Law: a conversion result is a function of the call's four arguments
/// alone. Any two results that `convert_shader`'s contract admits for the
/// same code, source dialect, target dialect and stage selector agree in
/// every field; calling twice with identical arguments therefore yields
/// byte-identical results, and no hidden state can tell the calls apart.
pub proof fn lemma_conversion_deterministic(
    r1: ConversionOutput,
    r2: ConversionOutput,
    code: Seq<char>,
    source_lang: Seq<char>,
    target_lang: Seq<char>,
    stage_sel: Seq<char>,
)
    requires
        conversion_post(r1, code, source_lang, target_lang, stage_sel),
        conversion_post(r2, code, source_lang, target_lang, stage_sel),
    ensures
        r1.success == r2.success,
        r1.output@ == r2.output@,
        r1.error@ == r2.error@,
{
}

/// Law: the deprecated entry point is a pure forwarding alias. It promises
/// exactly `convert_shader`'s contract with the source dialect fixed to the
/// permissive one, so its result and `convert_shader`'s on the same
/// arguments agree in every field.
pub proof fn lemma_legacy_alias(
    legacy: ConversionOutput,
    direct: ConversionOutput,
    code: Seq<char>,
    format: Seq<char>,
    stage_sel: Seq<char>,
)
    requires
        conversion_post(legacy, code, "glsl"@, format, stage_sel),
        conversion_post(direct, code, "glsl"@, format, stage_sel),
    ensures
        legacy.success == direct.success,
        legacy.output@ == direct.output@,
        legacy.error@ == direct.error@,
{
    lemma_conversion_deterministic(legacy, direct, code, "glsl"@, format, stage_sel);
}

/// Law: an unrecognized source dialect silently falls back to the
/// permissive path — never a hard failure at that stage: results admitted
/// for any source selector other than "wgsl" and results admitted for
/// "glsl" agree in every field.
pub proof fn lemma_source_dialect_fallback(
    r1: ConversionOutput,
    r2: ConversionOutput,
    code: Seq<char>,
    other: Seq<char>,
    target_lang: Seq<char>,
    stage_sel: Seq<char>,
)
    requires
        other != "wgsl"@,
        conversion_post(r1, code, other, target_lang, stage_sel),
        conversion_post(r2, code, "glsl"@, target_lang, stage_sel),
    ensures
        r1.success == r2.success,
        r1.output@ == r2.output@,
        r1.error@ == r2.error@,
{
    assert("glsl"@ != "wgsl"@) by {
        reveal_strlit("glsl");
        reveal_strlit("wgsl");
        assert("glsl"@[0] == 'g');
        assert("wgsl"@[0] == 'w');
    }
}

/// Law: an unrecognized stage selector defaults to the fragment stage:
/// results admitted for any stage selector other than "vertex" and
/// "compute" and results admitted for "fragment" agree in every field.
pub proof fn lemma_stage_fallback(
    r1: ConversionOutput,
    r2: ConversionOutput,
    code: Seq<char>,
    source_lang: Seq<char>,
    target_lang: Seq<char>,
    other: Seq<char>,
)
    requires
        other != "vertex"@,
        other != "compute"@,
        conversion_post(r1, code, source_lang, target_lang, other),
        conversion_post(r2, code, source_lang, target_lang, "fragment"@),
    ensures
        r1.success == r2.success,
        r1.output@ == r2.output@,
        r1.error@ == r2.error@,
{
    assert("fragment"@ != "vertex"@ && "fragment"@ != "compute"@) by {
        reveal_strlit("fragment");
        reveal_strlit("vertex");
        reveal_strlit("compute");
        assert("fragment"@.len() == 8);
        assert("vertex"@.len() == 6);
        assert("compute"@.len() == 7);
    }
}

/// Law: whatever the input, normalized source begins with the canonical
/// header block.
pub proof fn lemma_normalize_prepends_header(s: Seq<char>)
    ensures
        starts_with(normalize_glsl_spec(s), canonical_header()),
{
    assert(normalize_glsl_spec(s).take(canonical_header().len() as int) =~= canonical_header());
}

} // verus!
