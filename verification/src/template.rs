//! `{{name}}` variable substitution in request templates.
use vstd::prelude::*;
use crate::text::{lemma_find_after_prefix, lemma_find_none, 
    chars_of, find, find_chars_from, find_from, lemma_find_from, lemma_find_skip, occurs_at,
    string_of,
};

verus! {

/// `{{key}}`.
pub open spec fn placeholder(key: Seq<char>) -> Seq<char> {
    seq!['{', '{'] + key + seq!['}', '}']
}

/// `s` with every occurrence of the non-empty pattern `p` replaced by `r`,
/// occurrences taken from left to right without overlap (`str::replace`).
pub open spec fn replace_all(s: Seq<char>, p: Seq<char>, r: Seq<char>) -> Seq<char>
    decreases s.len(),
{
    if p.len() == 0 {
        s
    } else {
        match find(s, p) {
            None => s,
            Some(i) => {
                proof {
                    lemma_find_from(s, p, 0);
                }
                s.take(i) + r + replace_all(s.skip(i + p.len()), p, r)
            },
        }
    }
}

/// A template with every `{{key}}` replaced by its value, one variable after the
/// other in the order given: a value put in by one variable is itself open to
/// the variables that come after it.
pub open spec fn resolve(template: Seq<char>, env: Seq<(Seq<char>, Seq<char>)>) -> Seq<char>
    decreases env.len(),
{
    if env.len() == 0 {
        template
    } else {
        replace_all(resolve(template, env.drop_last()), placeholder(env.last().0), env.last().1)
    }
}

/// `s` with every occurrence of the non-empty pattern `p` replaced by `r`.
pub fn replace_chars(s: &[char], p: &[char], r: &[char]) -> (res: Vec<char>)
    requires
        p.len() > 0,
    ensures
        res@ == replace_all(s@, p@, r@),
{
    let mut out: Vec<char> = Vec::new();
    let mut pos: usize = 0;
    assert(s@.skip(0) =~= s@);
    loop
        invariant_except_break
            pos <= s.len(),
            out@ + replace_all(s@.skip(pos as int), p@, r@) == replace_all(s@, p@, r@),
        invariant
            p.len() > 0,
        ensures
            out@ == replace_all(s@, p@, r@),
        decreases s.len() - pos,
    {
        let ghost rest = s@.skip(pos as int);
        proof {
            lemma_find_skip(s@, p@, pos as int);
        }
        match find_chars_from(s, p, pos) {
            None => {
                let ghost before = out@;
                let mut k = pos;
                while k < s.len()
                    invariant
                        pos <= k <= s.len(),
                        out@ == before + s@.subrange(pos as int, k as int),
                    decreases s.len() - k,
                {
                    out.push(s[k]);
                    k = k + 1;
                }
                assert(s@.subrange(pos as int, s.len() as int) =~= rest);
                break ;
            },
            Some(i) => {
                proof {
                    lemma_find_from(s@, p@, pos as int);
                }
                let ghost before = out@;
                let mut k = pos;
                while k < i
                    invariant
                        pos <= k <= i <= s.len(),
                        out@ == before + s@.subrange(pos as int, k as int),
                    decreases i - k,
                {
                    out.push(s[k]);
                    k = k + 1;
                }
                let ghost mid = out@;
                for j in 0..r.len()
                    invariant
                        out@ == mid + r@.take(j as int),
                {
                    out.push(r[j]);
                    assert(r@.take(j + 1) =~= r@.take(j as int) + seq![r@[j as int]]);
                }
                assert(r@.take(r.len() as int) =~= r@);
                assert(rest.take(i - pos) =~= s@.subrange(pos as int, i as int));
                assert(rest.skip(i - pos + p.len()) =~= s@.skip(i + p.len()));
                pos = i + p.len();
            },
        }
    }
    out
}

/// `{{key}}` as characters.
fn placeholder_chars(key: &str) -> (res: Vec<char>)
    ensures
        res@ == placeholder(key@),
{
    let k = chars_of(key);
    let mut res: Vec<char> = Vec::new();
    res.push('{');
    res.push('{');
    for i in 0..k.len()
        invariant
            res@ == seq!['{', '{'] + k@.take(i as int),
    {
        res.push(k[i]);
        assert(k@.take(i + 1) =~= k@.take(i as int) + seq![k@[i as int]]);
    }
    assert(k@.take(k.len() as int) =~= k@);
    res.push('}');
    res.push('}');
    assert(res@ =~= placeholder(key@));
    res
}

/// Resolves `{{key}}` variables in `template` with the `(key, value)` pairs of
/// `env`, one after the other in the order given.
pub fn resolve_env(template: &str, env: &Vec<(String, String)>) -> (res: String)
    ensures
        res@ == resolve(template@, env.deep_view()),
{
    let ghost e = env.deep_view();
    let mut cur = chars_of(template);
    for i in 0..env.len()
        invariant
            e == env.deep_view(),
            cur@ == resolve(template@, e.take(i as int)),
    {
        assert(e.take(i + 1).drop_last() =~= e.take(i as int));
        assert(e.take(i + 1).last() == e[i as int]);
        let pat = placeholder_chars(env[i].0.as_str());
        let val = chars_of(env[i].1.as_str());
        cur = replace_chars(cur.as_slice(), pat.as_slice(), val.as_slice());
    }
    assert(e.take(env.len() as int) =~= e);
    string_of(cur.as_slice())
}

proof fn lemma_no_braces_no_placeholder(s: Seq<char>, key: Seq<char>)
    requires
        find(s, seq!['{', '{']) is None,
    ensures
        find(s, placeholder(key)) is None,
{
    lemma_find_from(s, seq!['{', '{'], 0);
    lemma_find_from(s, placeholder(key), 0);
    if let Some(i) = find(s, placeholder(key)) {
        assert(s.subrange(i, i + 2) =~= seq!['{', '{']) by {
            assert(s.subrange(i, i + placeholder(key).len())[0] == '{');
            assert(s.subrange(i, i + placeholder(key).len())[1] == '{');
        }
        assert(occurs_at(s, seq!['{', '{'], i));
    }
}

/// A template that holds no `{{` comes back unchanged, whatever the variables.
pub proof fn law_resolve_without_placeholders(
    template: Seq<char>,
    env: Seq<(Seq<char>, Seq<char>)>,
)
    requires
        find(template, seq!['{', '{']) is None,
    ensures
        resolve(template, env) == template,
    decreases env.len(),
{
    if env.len() > 0 {
        law_resolve_without_placeholders(template, env.drop_last());
        lemma_no_braces_no_placeholder(template, env.last().0);
    }
}

/// With no variables, a template comes back unchanged.
pub proof fn law_resolve_empty_env(template: Seq<char>)
    ensures
        resolve(template, Seq::empty()) == template,
{
}


/// Pieces joined with `sep` between each two of them.
pub open spec fn joined_with(pieces: Seq<Seq<char>>, sep: Seq<char>) -> Seq<char>
    decreases pieces.len(),
{
    if pieces.len() == 0 {
        seq![]
    } else if pieces.len() == 1 {
        pieces[0]
    } else {
        pieces[0] + sep + joined_with(pieces.skip(1), sep)
    }
}

/// Text without `{`.
pub open spec fn brace_free(s: Seq<char>) -> bool {
    forall|i: int| 0 <= i < s.len() ==> s[i] != '{'
}

proof fn lemma_replace_joined(pieces: Seq<Seq<char>>, p: Seq<char>, v: Seq<char>)
    requires
        pieces.len() > 0,
        p.len() > 0,
        p[0] == '{',
        forall|i: int| 0 <= i < pieces.len() ==> brace_free(#[trigger] pieces[i]),
    ensures
        replace_all(joined_with(pieces, p), p, v) == joined_with(pieces, v),
    decreases pieces.len(),
{
    if pieces.len() == 1 {
        lemma_find_none(pieces[0], p);
    } else {
        let w = pieces[0];
        let rest = joined_with(pieces.skip(1), p);
        assert(brace_free(pieces[0]));
        lemma_find_after_prefix(w, p, rest);
        let s = w + p + rest;
        assert(joined_with(pieces, p) == s);
        assert(s.take(w.len() as int) =~= w);
        assert(s.skip((w.len() + p.len()) as int) =~= rest);
        assert forall|i: int| 0 <= i < pieces.skip(1).len() implies brace_free(#[trigger] pieces.skip(1)[i]) by {
            assert(pieces.skip(1)[i] == pieces[i + 1]);
        }
        lemma_replace_joined(pieces.skip(1), p, v);
    }
}

/// Every occurrence of a variable is replaced: a template made of pieces
/// without `{` with `{{key}}` between each two of them resolves, with the one
/// variable `key = value`, to the same pieces with the value between them.
pub proof fn law_resolve_replaces_every_occurrence(
    pieces: Seq<Seq<char>>,
    key: Seq<char>,
    value: Seq<char>,
)
    requires
        pieces.len() > 0,
        forall|i: int| 0 <= i < pieces.len() ==> brace_free(#[trigger] pieces[i]),
    ensures
        resolve(joined_with(pieces, placeholder(key)), seq![(key, value)]) == joined_with(pieces, value),
{
    let env = seq![(key, value)];
    assert(env.drop_last() =~= Seq::<(Seq<char>, Seq<char>)>::empty());
    assert(placeholder(key)[0] == '{');
    lemma_replace_joined(pieces, placeholder(key), value);
    let t = joined_with(pieces, placeholder(key));
    assert(resolve(t, env.drop_last()) == t);
    assert(env.last() == (key, value));
    assert(resolve(t, env) == replace_all(t, placeholder(key), value));
}

} // verus!
