//! Reading `Set-Cookie` response headers.
use vstd::prelude::*;
use crate::text::{lemma_find_after_prefix, lemma_find_none, 
    chars_lowercase_equals, chars_of, chars_seqs, lowercase_equals, find, find_chars,
    lemma_find_from, occurs_at, slice_range, split_chars, split_on, split_once, starts_with, string_of,
    strip_prefix, trim, trim_chars,
};

verus! {

/// A cookie that a response sets.
pub struct CookieInfo {
    pub name: String,
    pub value: String,
    pub domain: Option<String>,
    pub path: Option<String>,
    pub secure: bool,
    pub http_only: bool,
}

/// Name and value from the first `;`-separated part of a `Set-Cookie` header:
/// split at the first `=` and trimmed; without `=`, the name is empty and the
/// whole part is the value.
pub open spec fn cookie_name_value(first: Seq<char>) -> (Seq<char>, Seq<char>) {
    match split_once(first, '=') {
        Some((n, v)) => (trim(n), trim(v)),
        None => (seq![], trim(first)),
    }
}

/// What an attribute sets when, trimmed, it starts with `lower` or with `upper`
/// (tried in that order): the rest of it.
pub open spec fn attr_value(attr: Seq<char>, lower: Seq<char>, upper: Seq<char>) -> Option<
    Seq<char>,
> {
    match strip_prefix(trim(attr), lower) {
        Some(v) => Some(v),
        None => strip_prefix(trim(attr), upper),
    }
}

/// The value that the last attribute of the form `lower…`/`upper…` sets.
pub open spec fn last_attr_value(attrs: Seq<Seq<char>>, lower: Seq<char>, upper: Seq<char>) -> Option<
    Seq<char>,
>
    decreases attrs.len(),
{
    if attrs.len() == 0 {
        None
    } else {
        match attr_value(attrs.last(), lower, upper) {
            Some(v) => Some(v),
            None => last_attr_value(attrs.drop_last(), lower, upper),
        }
    }
}

/// Some attribute, trimmed and lower-cased, is `word`.
pub open spec fn has_flag(attrs: Seq<Seq<char>>, word: Seq<char>) -> bool {
    exists|i: int| 0 <= i < attrs.len() && lowercase_equals(trim(#[trigger] attrs[i]), word)
}

/// The cookie that a `Set-Cookie` header describes: name and value from the part
/// before the first `;`; from the attributes after it, `Secure` and `HttpOnly`
/// flags (in any case) and the last `Domain=`/`domain=` and `Path=`/`path=` values.
pub open spec fn set_cookie_spec(header: Seq<char>) -> (
    Seq<char>,
    Seq<char>,
    Option<Seq<char>>,
    Option<Seq<char>>,
    bool,
    bool,
) {
    let parts = split_on(header, ';');
    let attrs = parts.skip(1);
    let nv = cookie_name_value(parts[0]);
    (
        nv.0,
        nv.1,
        last_attr_value(attrs, "domain="@, "Domain="@),
        last_attr_value(attrs, "path="@, "Path="@),
        has_flag(attrs, "secure"@),
        has_flag(attrs, "httponly"@),
    )
}

/// The view of an optional string.
pub open spec fn opt_view(o: Option<String>) -> Option<Seq<char>> {
    match o {
        Some(s) => Some(s@),
        None => None,
    }
}

proof fn lemma_split_on_nonempty(s: Seq<char>, c: char)
    ensures
        split_on(s, c).len() >= 1,
{
    lemma_find_from(s, seq![c], 0);
}

/// `attr_value` on characters.
fn attr_value_chars(attr: &[char], lower: &[char], upper: &[char]) -> (res: Option<Vec<char>>)
    ensures
        match attr_value(attr@, lower@, upper@) {
            Some(v) => res matches Some(r) && r@ == v,
            None => res is None,
        },
{
    let t = trim_chars(attr);
    if starts_with(t.as_slice(), lower) {
        let r = slice_range(t.as_slice(), lower.len(), t.len());
        assert(r@ =~= t@.skip(lower@.len() as int));
        Some(r)
    } else if starts_with(t.as_slice(), upper) {
        let r = slice_range(t.as_slice(), upper.len(), t.len());
        assert(r@ =~= t@.skip(upper@.len() as int));
        Some(r)
    } else {
        None
    }
}

/// Parses one `Set-Cookie` header value.
pub fn parse_set_cookie(header: &str) -> (res: CookieInfo)
    ensures
        ({
            let sp = set_cookie_spec(header@);
            &&& res.name@ == sp.0
            &&& res.value@ == sp.1
            &&& opt_view(res.domain) == sp.2
            &&& opt_view(res.path) == sp.3
            &&& res.secure == sp.4
            &&& res.http_only == sp.5
        }),
{
    let h = chars_of(header);
    let parts = split_chars(h.as_slice(), ';');
    let ghost pv = chars_seqs(parts@);
    proof {
        lemma_split_on_nonempty(header@, ';');
    }
    let first = &parts[0];
    let mut eq: Vec<char> = Vec::new();
    eq.push('=');
    assert(eq@ =~= seq!['=']);
    let (name, value) = match find_chars(first.as_slice(), eq.as_slice()) {
        Some(i) => {
            proof {
                assert(eq@ == seq!['=']);
                assert(find(first@, eq@) == Some(i as int));
                lemma_find_from(first@, seq!['='], 0);
                assert(occurs_at(first@, seq!['='], i as int));
            }
            let n = slice_range(first.as_slice(), 0, i);
            let v = slice_range(first.as_slice(), i + 1, first.len());
            assert(n@ =~= first@.take(i as int));
            assert(v@ =~= first@.skip(i + 1));
            (trim_chars(n.as_slice()), trim_chars(v.as_slice()))
        },
        None => (Vec::new(), trim_chars(first.as_slice())),
    };
    assert(name@ == cookie_name_value(pv[0]).0);
    let ghost attrs = pv.skip(1);
    let domain_l = chars_of("domain=");
    let domain_u = chars_of("Domain=");
    let path_l = chars_of("path=");
    let path_u = chars_of("Path=");
    let secure_w = chars_of("secure");
    let http_w = chars_of("httponly");
    let mut domain: Option<Vec<char>> = None;
    let mut path: Option<Vec<char>> = None;
    let mut secure = false;
    let mut http_only = false;
    let mut i: usize = 1;
    while i < parts.len()
        invariant
            1 <= i <= parts.len(),
            pv == chars_seqs(parts@),
            attrs == pv.skip(1),
            domain_l@ == "domain="@,
            domain_u@ == "Domain="@,
            path_l@ == "path="@,
            path_u@ == "Path="@,
            secure_w@ == "secure"@,
            http_w@ == "httponly"@,
            match last_attr_value(attrs.take(i - 1), "domain="@, "Domain="@) {
                Some(v) => domain matches Some(d) && d@ == v,
                None => domain is None,
            },
            match last_attr_value(attrs.take(i - 1), "path="@, "Path="@) {
                Some(v) => path matches Some(d) && d@ == v,
                None => path is None,
            },
            secure == has_flag(attrs.take(i - 1), "secure"@),
            http_only == has_flag(attrs.take(i - 1), "httponly"@),
        decreases parts.len() - i,
    {
        let ghost pre = attrs.take(i - 1);
        let ghost cur = attrs.take(i as int);
        assert(cur.drop_last() =~= pre);
        assert(cur.last() == parts@[i as int]@);
        let attr = parts[i].as_slice();
        let t = trim_chars(attr);
        if chars_lowercase_equals(t.as_slice(), secure_w.as_slice()) {
            secure = true;
        }
        if chars_lowercase_equals(t.as_slice(), http_w.as_slice()) {
            http_only = true;
        }
        assert(secure == has_flag(cur, "secure"@)) by {
            if has_flag(cur, "secure"@) {
                let j = choose|j: int|
                    0 <= j < cur.len() && lowercase_equals(trim(#[trigger] cur[j]), "secure"@);
                if j < cur.len() - 1 {
                    assert(pre[j] == cur[j]);
                }
            }
            if has_flag(pre, "secure"@) {
                let j = choose|j: int|
                    0 <= j < pre.len() && lowercase_equals(trim(#[trigger] pre[j]), "secure"@);
                assert(pre[j] == cur[j]);
            }
            if lowercase_equals(trim(cur.last()), "secure"@) {
                assert(lowercase_equals(trim(cur[cur.len() - 1]), "secure"@));
            }
        }
        assert(http_only == has_flag(cur, "httponly"@)) by {
            if has_flag(cur, "httponly"@) {
                let j = choose|j: int|
                    0 <= j < cur.len() && lowercase_equals(
                        trim(#[trigger] cur[j]),
                        "httponly"@,
                    );
                if j < cur.len() - 1 {
                    assert(pre[j] == cur[j]);
                }
            }
            if has_flag(pre, "httponly"@) {
                let j = choose|j: int|
                    0 <= j < pre.len() && lowercase_equals(
                        trim(#[trigger] pre[j]),
                        "httponly"@,
                    );
                assert(pre[j] == cur[j]);
            }
            if lowercase_equals(trim(cur.last()), "httponly"@) {
                assert(lowercase_equals(trim(cur[cur.len() - 1]), "httponly"@));
            }
        }
        match attr_value_chars(attr, domain_l.as_slice(), domain_u.as_slice()) {
            Some(d) => {
                domain = Some(d);
            },
            None => {},
        }
        match attr_value_chars(attr, path_l.as_slice(), path_u.as_slice()) {
            Some(p) => {
                path = Some(p);
            },
            None => {},
        }
        i = i + 1;
    }
    assert(attrs.take(parts.len() - 1) =~= attrs);
    CookieInfo {
        name: string_of(name.as_slice()),
        value: string_of(value.as_slice()),
        domain: match domain {
            Some(d) => Some(string_of(d.as_slice())),
            None => None,
        },
        path: match path {
            Some(p) => Some(string_of(p.as_slice())),
            None => None,
        },
        secure,
        http_only,
    }
}


/// A cookie's value is everything after the first `=` of the part before the
/// first `;`, `=` signs in it included: for a name free of `=` and `;`, a value
/// free of `;`, both without blanks around them, and a tail that is empty or
/// starts a new attribute, `name=value` followed by the tail reads back as that
/// name and value.
pub proof fn law_cookie_value_after_first_equals(name: Seq<char>, value: Seq<char>, tail: Seq<char>)
    requires
        forall|i: int| 0 <= i < name.len() ==> name[i] != '=' && name[i] != ';',
        forall|i: int| 0 <= i < value.len() ==> value[i] != ';',
        trim(name) == name,
        trim(value) == value,
        tail.len() == 0 || tail[0] == ';',
    ensures
        set_cookie_spec(name + seq!['='] + value + tail).0 == name,
        set_cookie_spec(name + seq!['='] + value + tail).1 == value,
{
    let nv = name + seq!['='] + value;
    let h = nv + tail;
    assert forall|i: int| 0 <= i < nv.len() implies nv[i] != seq![';'][0] by {
        if i < name.len() {
            assert(nv[i] == name[i]);
        } else if i > name.len() {
            assert(nv[i] == value[i - name.len() - 1]);
        }
    }
    if tail.len() == 0 {
        assert(h =~= nv);
        lemma_find_none(nv, seq![';']);
        assert(split_on(h, ';') == seq![h]);
    } else {
        assert(h =~= nv + seq![';'] + tail.skip(1));
        lemma_find_after_prefix(nv, seq![';'], tail.skip(1));
        assert(h.take(nv.len() as int) =~= nv);
        assert(split_on(h, ';')[0] == nv);
    }
    assert(split_on(h, ';')[0] == nv);
    lemma_find_after_prefix(name, seq!['='], value);
    assert(nv.take(name.len() as int) =~= name);
    assert(nv.skip((name.len() + 1) as int) =~= value);
}

} // verus!
