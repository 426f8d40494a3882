use crate::text::{first_index, nbsp, replace_all, sanitized, strip_tags};
use vstd::prelude::*;

verus! {

/// `s` is text and well-formed tags only: each `<` opens a tag that a later
/// `>` closes with no `<` between them, and no `>` stands outside a tag.
pub open spec fn well_tagged(s: Seq<char>) -> bool
    decreases s.len(),
{
    if s.len() == 0 {
        true
    } else if s[0] == '>' {
        false
    } else if s[0] == '<' {
        let k = first_index(s, '>');
        &&& k < s.len()
        &&& forall|i: int| 1 <= i < k ==> #[trigger] s[i] != '<'
        &&& well_tagged(s.skip(k as int + 1))
    } else {
        well_tagged(s.skip(1))
    }
}

/// No `<` of `t` has a `>` anywhere after it, so `t` holds no complete tag.
pub open spec fn tag_free(t: Seq<char>) -> bool {
    forall|i: int, j: int| 0 <= i < j < t.len() && #[trigger] t[i] == '<' ==> #[trigger] t[j] != '>'
}

/// `t` holds no occurrence of `pat`.
pub open spec fn pattern_free(t: Seq<char>, pat: Seq<char>) -> bool {
    forall|i: int| 0 <= i && i + pat.len() <= t.len() ==> #[trigger] t.subrange(i, i + pat.len()) != pat
}

/// `c` occurs nowhere in `t`.
pub open spec fn lacks(t: Seq<char>, c: char) -> bool {
    forall|i: int| 0 <= i < t.len() ==> #[trigger] t[i] != c
}

proof fn lemma_first_index(s: Seq<char>, c: char)
    ensures
        first_index(s, c) <= s.len(),
        forall|i: int| 0 <= i < first_index(s, c) ==> #[trigger] s[i] != c,
        first_index(s, c) < s.len() ==> s[first_index(s, c) as int] == c,
    decreases s.len(),
{
    if s.len() > 0 && s[0] != c {
        lemma_first_index(s.skip(1), c);
        assert forall|i: int| 0 <= i < first_index(s, c) implies #[trigger] s[i] != c by {
            if i > 0 {
                assert(s[i] == s.skip(1)[i - 1]);
            }
        }
    }
}

proof fn lemma_strip_tag_free(s: Seq<char>)
    ensures
        tag_free(strip_tags(s)),
    decreases s.len(),
{
    lemma_first_index(s, '>');
    if s.len() == 0 {
    } else if s[0] == '<' {
        if first_index(s, '>') < s.len() {
            lemma_strip_tag_free(s.skip(first_index(s, '>') as int + 1));
        }
    } else {
        let x = strip_tags(s.skip(1));
        lemma_strip_tag_free(s.skip(1));
        let out = seq![s[0]] + x;
        assert(strip_tags(s) == out);
        assert forall|i: int, j: int| 0 <= i < j < out.len() && #[trigger] out[i] == '<' implies #[trigger] out[j] != '>' by {
            assert(out[i] == x[i - 1]);
            assert(out[j] == x[j - 1]);
        }
    }
}

proof fn lemma_strip_fixed(t: Seq<char>)
    requires
        tag_free(t),
    ensures
        strip_tags(t) == t,
    decreases t.len(),
{
    lemma_first_index(t, '>');
    if t.len() == 0 {
    } else if t[0] == '<' {
        if first_index(t, '>') < t.len() {
            assert(t[first_index(t, '>') as int] == '>');
        }
    } else {
        let u = t.skip(1);
        assert forall|i: int, j: int| 0 <= i < j < u.len() && #[trigger] u[i] == '<' implies #[trigger] u[j] != '>' by {
            assert(u[i] == t[i + 1]);
            assert(u[j] == t[j + 1]);
        }
        lemma_strip_fixed(u);
        assert(seq![t[0]] + u =~= t);
    }
}

proof fn lemma_well_tagged_strip(s: Seq<char>)
    requires
        well_tagged(s),
    ensures
        lacks(strip_tags(s), '<'),
        lacks(strip_tags(s), '>'),
    decreases s.len(),
{
    lemma_first_index(s, '>');
    if s.len() == 0 {
    } else if s[0] == '<' {
        lemma_well_tagged_strip(s.skip(first_index(s, '>') as int + 1));
    } else {
        lemma_well_tagged_strip(s.skip(1));
        let x = strip_tags(s.skip(1));
        assert forall|i: int| 0 <= i < (seq![s[0]] + x).len() implies #[trigger] (seq![s[0]] + x)[i] != '<' && (seq![s[0]] + x)[i] != '>' by {
            if i > 0 {
                assert((seq![s[0]] + x)[i] == x[i - 1]);
            }
        }
    }
}

proof fn lemma_replace_lacks(u: Seq<char>, pat: Seq<char>, rep: Seq<char>, c: char)
    requires
        lacks(u, c),
        lacks(rep, c),
    ensures
        lacks(replace_all(u, pat, rep), c),
    decreases u.len(),
{
    if pat.len() == 0 || u.len() < pat.len() {
    } else if u.subrange(0, pat.len() as int) == pat {
        let rest = u.skip(pat.len() as int);
        assert forall|i: int| 0 <= i < rest.len() implies #[trigger] rest[i] != c by {
            assert(rest[i] == u[i + pat.len()]);
        }
        lemma_replace_lacks(rest, pat, rep, c);
        let out = rep + replace_all(rest, pat, rep);
        assert forall|i: int| 0 <= i < out.len() implies #[trigger] out[i] != c by {
            if i >= rep.len() {
                assert(out[i] == replace_all(rest, pat, rep)[i - rep.len()]);
            }
        }
    } else {
        let rest = u.skip(1);
        assert forall|i: int| 0 <= i < rest.len() implies #[trigger] rest[i] != c by {
            assert(rest[i] == u[i + 1]);
        }
        lemma_replace_lacks(rest, pat, rep, c);
        let out = seq![u[0]] + replace_all(rest, pat, rep);
        assert forall|i: int| 0 <= i < out.len() implies #[trigger] out[i] != c by {
            if i >= 1 {
                assert(out[i] == replace_all(rest, pat, rep)[i - 1]);
            }
        }
    }
}

proof fn lemma_replace_tag_free(t: Seq<char>, pat: Seq<char>, rep: Seq<char>)
    requires
        tag_free(t),
        lacks(pat, '<'),
        lacks(rep, '<'),
        lacks(rep, '>'),
    ensures
        tag_free(replace_all(t, pat, rep)),
    decreases t.len(),
{
    if pat.len() == 0 || t.len() < pat.len() {
    } else {
        let starts = t.subrange(0, pat.len() as int) == pat;
        let n: int = if starts {
            pat.len() as int
        } else {
            1
        };
        let rest = t.skip(n);
        assert forall|i: int, j: int| 0 <= i < j < rest.len() && #[trigger] rest[i] == '<' implies #[trigger] rest[j] != '>' by {
            assert(rest[i] == t[i + n]);
            assert(rest[j] == t[j + n]);
        }
        lemma_replace_tag_free(rest, pat, rep);
        let x = replace_all(rest, pat, rep);
        if starts {
            let out = rep + x;
            assert(replace_all(t, pat, rep) == out);
            assert forall|i: int, j: int| 0 <= i < j < out.len() && #[trigger] out[i] == '<' implies #[trigger] out[j] != '>' by {
                if i >= rep.len() {
                    assert(out[i] == x[i - rep.len()]);
                    assert(out[j] == x[j - rep.len()]);
                }
            }
        } else {
            let out = seq![t[0]] + x;
            assert(replace_all(t, pat, rep) == out);
            if t[0] == '<' {
                assert forall|k: int| 0 <= k < rest.len() implies #[trigger] rest[k] != '>' by {
                    assert(rest[k] == t[k + 1]);
                }
                lemma_replace_lacks(rest, pat, rep, '>');
            }
            assert forall|i: int, j: int| 0 <= i < j < out.len() && #[trigger] out[i] == '<' implies #[trigger] out[j] != '>' by {
                assert(out[j] == x[j - 1]);
                if i > 0 {
                    assert(out[i] == x[i - 1]);
                }
            }
        }
    }
}

proof fn lemma_replace_fixed(t: Seq<char>, pat: Seq<char>, rep: Seq<char>)
    requires
        pattern_free(t, pat),
    ensures
        replace_all(t, pat, rep) == t,
    decreases t.len(),
{
    if pat.len() == 0 || t.len() < pat.len() {
    } else {
        let z: int = 0;
        assert(t.subrange(z, z + pat.len()) != pat);
        assert(t.subrange(z, z + pat.len()) == t.subrange(0, pat.len() as int));
        let u = t.skip(1);
        assert forall|i: int| 0 <= i && i + pat.len() <= u.len() implies #[trigger] u.subrange(i, i + pat.len()) != pat by {
            assert(u.subrange(i, i + pat.len()) =~= t.subrange(i + 1, i + 1 + pat.len()));
        }
        lemma_replace_fixed(u, pat, rep);
        assert(seq![t[0]] + u =~= t);
    }
}

/// A prefix of a replaced text that avoids the replacement's one character
/// was already a prefix of the text.
proof fn lemma_replace_prefix(u: Seq<char>, pat: Seq<char>, rep: Seq<char>, q: Seq<char>)
    requires
        rep.len() == 1,
        lacks(q, rep[0]),
        q.len() <= replace_all(u, pat, rep).len(),
        replace_all(u, pat, rep).take(q.len() as int) == q,
    ensures
        q.len() <= u.len(),
        u.take(q.len() as int) == q,
    decreases u.len(),
{
    let out = replace_all(u, pat, rep);
    if q.len() == 0 {
        assert(u.take(0) =~= q);
    } else if pat.len() == 0 || u.len() < pat.len() {
    } else if u.subrange(0, pat.len() as int) == pat {
        assert(out[0] == rep[0]);
        assert(q[0] == out.take(q.len() as int)[0]);
    } else {
        let rest = u.skip(1);
        let x = replace_all(rest, pat, rep);
        assert(out == seq![u[0]] + x);
        assert(x.take(q.len() - 1) =~= q.skip(1)) by {
            assert forall|k: int| 0 <= k < q.len() - 1 implies x.take(q.len() - 1)[k] == q.skip(1)[k] by {
                assert(x[k] == out[k + 1]);
                assert(out.take(q.len() as int)[k + 1] == q[k + 1]);
            }
        }
        assert forall|k: int| 0 <= k < q.skip(1).len() implies #[trigger] q.skip(1)[k] != rep[0] by {
            assert(q.skip(1)[k] == q[k + 1]);
        }
        lemma_replace_prefix(rest, pat, rep, q.skip(1));
        assert(q[0] == out.take(q.len() as int)[0]);
        assert(u.take(q.len() as int) =~= q) by {
            assert forall|k: int| 0 <= k < q.len() implies u.take(q.len() as int)[k] == q[k] by {
                if k > 0 {
                    assert(u[k] == rest.take(q.len() - 1)[k - 1]);
                    assert(q[k] == q.skip(1)[k - 1]);
                }
            }
        }
    }
}

proof fn lemma_replace_pattern_free(t: Seq<char>, pat: Seq<char>, rep: Seq<char>)
    requires
        pat.len() > 0,
        rep.len() == 1,
        lacks(pat, rep[0]),
    ensures
        pattern_free(replace_all(t, pat, rep), pat),
    decreases t.len(),
{
    let out = replace_all(t, pat, rep);
    if t.len() < pat.len() {
    } else if t.subrange(0, pat.len() as int) == pat {
        let rest = t.skip(pat.len() as int);
        let x = replace_all(rest, pat, rep);
        lemma_replace_pattern_free(rest, pat, rep);
        assert forall|i: int| 0 <= i && i + pat.len() <= out.len() implies #[trigger] out.subrange(i, i + pat.len()) != pat by {
            if i == 0 {
                assert(out.subrange(0, pat.len() as int)[0] == rep[0]);
            } else {
                assert(out.subrange(i, i + pat.len()) =~= x.subrange(i - 1, i - 1 + pat.len()));
            }
        }
    } else {
        let rest = t.skip(1);
        let x = replace_all(rest, pat, rep);
        lemma_replace_pattern_free(rest, pat, rep);
        assert forall|i: int| 0 <= i && i + pat.len() <= out.len() implies #[trigger] out.subrange(i, i + pat.len()) != pat by {
            if i == 0 {
                if out.subrange(0, pat.len() as int) == pat {
                    let q = pat.skip(1);
                    assert forall|k: int| 0 <= k < q.len() implies #[trigger] q[k] != rep[0] by {
                        assert(q[k] == pat[k + 1]);
                    }
                    assert(x.take(q.len() as int) =~= q) by {
                        assert forall|k: int| 0 <= k < q.len() implies x.take(q.len() as int)[k] == q[k] by {
                            assert(x[k] == out[k + 1]);
                            assert(out.subrange(0, pat.len() as int)[k + 1] == pat[k + 1]);
                        }
                    }
                    lemma_replace_prefix(rest, pat, rep, q);
                    assert(t.subrange(0, pat.len() as int) =~= pat) by {
                        assert forall|k: int| 0 <= k < pat.len() implies t.subrange(0, pat.len() as int)[k] == pat[k] by {
                            if k == 0 {
                                assert(out.subrange(0, pat.len() as int)[0] == pat[0]);
                            } else {
                                assert(t[k] == rest.take(q.len() as int)[k - 1]);
                            }
                        }
                    }
                }
            } else {
                assert(out.subrange(i, i + pat.len()) =~= x.subrange(i - 1, i - 1 + pat.len()));
            }
        }
    }
}

/// Text made only of plain characters and well-formed, non-overlapping tags
/// comes out of the sanitizer with no `<` and no `>`.
pub proof fn lemma_sanitized_has_no_brackets(s: Seq<char>)
    requires
        well_tagged(s),
    ensures
        lacks(sanitized(s), '<'),
        lacks(sanitized(s), '>'),
{
    lemma_well_tagged_strip(s);
    assert(lacks(seq![' '], '<'));
    assert(lacks(seq![' '], '>'));
    lemma_replace_lacks(strip_tags(s), nbsp(), seq![' '], '<');
    lemma_replace_lacks(strip_tags(s), nbsp(), seq![' '], '>');
}

/// Sanitizing text that was already sanitized changes nothing.
pub proof fn lemma_sanitize_idempotent(s: Seq<char>)
    ensures
        sanitized(sanitized(s)) == sanitized(s),
{
    let y = sanitized(s);
    let space = seq![' '];
    assert(lacks(nbsp(), '<'));
    assert(lacks(space, '<'));
    assert(lacks(space, '>'));
    assert(lacks(nbsp(), space[0]));
    lemma_strip_tag_free(s);
    lemma_replace_tag_free(strip_tags(s), nbsp(), space);
    lemma_strip_fixed(y);
    lemma_replace_pattern_free(strip_tags(s), nbsp(), space);
    lemma_replace_fixed(y, nbsp(), space);
}

} // verus!
