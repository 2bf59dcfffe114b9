//! Character-level helpers shared by the parsers of the library.
use vstd::prelude::*;
use vstd::utf8::*;

verus! {

/// `String::push` appends one character.
pub assume_specification[ String::push ](s: &mut String, ch: char)
    ensures
        final(s)@ == old(s)@.push(ch),
;

/// The characters of a string slice, in order.
pub fn chars_of(s: &str) -> (res: Vec<char>)
    ensures
        res@ == s@,
{
    let mut res: Vec<char> = Vec::new();
    for c in it: s.chars()
        invariant
            res@ == it.seq().take(it.index() as int),
            it.seq() == s@,
    {
        res.push(c);
    }
    res
}

/// A string made of the given characters, in order.
pub fn string_of(v: &[char]) -> (res: String)
    ensures
        res@ == v@,
{
    let mut res = String::new();
    let mut i: usize = 0;
    while i < v.len()
        invariant
            i <= v.len(),
            res@ == v@.take(i as int),
        decreases v.len() - i,
    {
        res.push(v[i]);
        i = i + 1;
    }
    res
}


/// Unicode `White_Space`, the set that `char::is_whitespace` (and so `str::trim`)
/// recognises.
pub open spec fn is_ws(c: char) -> bool {
    ||| ('\u{9}' <= c && c <= '\u{d}')
    ||| c == ' '
    ||| c == '\u{85}'
    ||| c == '\u{a0}'
    ||| c == '\u{1680}'
    ||| ('\u{2000}' <= c && c <= '\u{200a}')
    ||| c == '\u{2028}'
    ||| c == '\u{2029}'
    ||| c == '\u{202f}'
    ||| c == '\u{205f}'
    ||| c == '\u{3000}'
}

pub fn is_whitespace(c: char) -> (res: bool)
    ensures
        res == is_ws(c),
{
    ('\u{9}' <= c && c <= '\u{d}') || c == ' ' || c == '\u{85}' || c == '\u{a0}' || c
        == '\u{1680}' || ('\u{2000}' <= c && c <= '\u{200a}') || c == '\u{2028}' || c
        == '\u{2029}' || c == '\u{202f}' || c == '\u{205f}' || c == '\u{3000}'
}

/// `s` without its leading white space.
pub open spec fn trim_start(s: Seq<char>) -> Seq<char>
    decreases s.len(),
{
    if s.len() > 0 && is_ws(s[0]) {
        trim_start(s.drop_first())
    } else {
        s
    }
}

/// `s` without its trailing white space.
pub open spec fn trim_end(s: Seq<char>) -> Seq<char>
    decreases s.len(),
{
    if s.len() > 0 && is_ws(s.last()) {
        trim_end(s.drop_last())
    } else {
        s
    }
}

/// `s` without leading and trailing white space (`str::trim`).
pub open spec fn trim(s: Seq<char>) -> Seq<char> {
    trim_end(trim_start(s))
}

/// `str::trim` on characters.
pub fn trim_chars(s: &[char]) -> (res: Vec<char>)
    ensures
        res@ == trim(s@),
{
    let mut a: usize = 0;
    assert(s@.skip(0) =~= s@);
    while a < s.len() && is_whitespace(s[a])
        invariant
            a <= s.len(),
            trim_start(s@) == trim_start(s@.skip(a as int)),
        decreases s.len() - a,
    {
        assert(s@.skip(a as int).drop_first() =~= s@.skip(a + 1));
        a = a + 1;
    }
    let ghost t = s@.skip(a as int);
    assert(trim_start(t) == t);
    let mut b: usize = s.len();
    assert(t =~= s@.subrange(a as int, b as int));
    while b > a && is_whitespace(s[b - 1])
        invariant
            a <= b <= s.len(),
            trim_end(t) == trim_end(s@.subrange(a as int, b as int)),
        decreases b,
    {
        assert(s@.subrange(a as int, b as int).drop_last() =~= s@.subrange(a as int, b - 1));
        b = b - 1;
    }
    let res = slice_range(s, a, b);
    res
}

/// The characters `s[from..to]`.
pub fn slice_range(s: &[char], from: usize, to: usize) -> (res: Vec<char>)
    requires
        from <= to <= s.len(),
    ensures
        res@ == s@.subrange(from as int, to as int),
{
    let mut res: Vec<char> = Vec::new();
    let mut k = from;
    while k < to
        invariant
            from <= k <= to <= s.len(),
            res@ == s@.subrange(from as int, k as int),
        decreases to - k,
    {
        res.push(s[k]);
        k = k + 1;
    }
    res
}

/// `p` occurs in `s` at index `i`.
pub open spec fn occurs_at(s: Seq<char>, p: Seq<char>, i: int) -> bool {
    0 <= i && i + p.len() <= s.len() && s.subrange(i, i + p.len()) == p
}

/// The first index at or after `i` where `p` occurs in `s`.
pub open spec fn find_from(s: Seq<char>, p: Seq<char>, i: int) -> Option<int>
    decreases s.len() + 1 - i,
{
    if i < 0 || i + p.len() > s.len() {
        None
    } else if occurs_at(s, p, i) {
        Some(i)
    } else {
        find_from(s, p, i + 1)
    }
}

/// The first index where `p` occurs in `s` (`str::find`).
pub open spec fn find(s: Seq<char>, p: Seq<char>) -> Option<int> {
    find_from(s, p, 0)
}

pub proof fn lemma_find_from(s: Seq<char>, p: Seq<char>, i: int)
    requires
        0 <= i,
    ensures
        find_from(s, p, i) matches Some(j) ==> i <= j && occurs_at(s, p, j) && forall|k: int|
            i <= k < j ==> !occurs_at(s, p, k),
        find_from(s, p, i) is None ==> forall|k: int| i <= k ==> !occurs_at(s, p, k),
    decreases s.len() + 1 - i,
{
    if i + p.len() <= s.len() && !occurs_at(s, p, i) {
        lemma_find_from(s, p, i + 1);
    }
}

pub proof fn lemma_occurs_skip(s: Seq<char>, p: Seq<char>, a: int, k: int)
    requires
        0 <= a <= s.len(),
        0 <= k,
    ensures
        occurs_at(s.skip(a), p, k) <==> occurs_at(s, p, a + k),
{
    if occurs_at(s, p, a + k) {
        assert(s.skip(a).subrange(k, k + p.len()) =~= s.subrange(a + k, a + k + p.len()));
    }
    if occurs_at(s.skip(a), p, k) {
        assert(s.skip(a).subrange(k, k + p.len()) =~= s.subrange(a + k, a + k + p.len()));
    }
}

/// Whether `p` occurs in `s` at index `i`.
pub fn matches_at(s: &[char], p: &[char], i: usize) -> (res: bool)
    ensures
        res == occurs_at(s@, p@, i as int),
{
    if i > s.len() || p.len() > s.len() - i {
        return false;
    }
    let mut k: usize = 0;
    while k < p.len()
        invariant
            i + p.len() <= s.len(),
            k <= p.len(),
            forall|j: int| 0 <= j < k ==> s@[i + j] == p@[j],
        decreases p.len() - k,
    {
        if s[i + k] != p[k] {
            assert(s@.subrange(i as int, i + p.len())[k as int] != p@[k as int]);
            return false;
        }
        k = k + 1;
    }
    assert(s@.subrange(i as int, i + p.len()) =~= p@);
    true
}

/// The first index at or after `from` where `p` occurs in `s`.
pub fn find_chars_from(s: &[char], p: &[char], from: usize) -> (res: Option<usize>)
    ensures
        match res {
            None => find_from(s@, p@, from as int) is None,
            Some(r) => find_from(s@, p@, from as int) == Some(r as int),
        },
{
    let mut i = from;
    if i > s.len() || p.len() > s.len() - i {
        return None;
    }
    if p.len() == 0 {
        assert(s@.subrange(i as int, i as int) =~= p@);
        return Some(i);
    }
    while p.len() <= s.len() - i
        invariant
            p.len() >= 1,
            from <= i,
            i <= s.len(),
            find_from(s@, p@, from as int) == find_from(s@, p@, i as int),
        decreases s.len() - i,
    {
        if matches_at(s, p, i) {
            return Some(i);
        }
        i = i + 1;
    }
    None
}

/// The first index where `p` occurs in `s`.
pub fn find_chars(s: &[char], p: &[char]) -> (res: Option<usize>)
    ensures
        match res {
            None => find(s@, p@) is None,
            Some(r) => find(s@, p@) == Some(r as int),
        },
{
    find_chars_from(s, p, 0)
}

/// `s` starts with `p`.
pub open spec fn has_prefix(s: Seq<char>, p: Seq<char>) -> bool {
    p.len() <= s.len() && s.take(p.len() as int) == p
}

/// `str::strip_prefix`.
pub open spec fn strip_prefix(s: Seq<char>, p: Seq<char>) -> Option<Seq<char>> {
    if has_prefix(s, p) {
        Some(s.skip(p.len() as int))
    } else {
        None
    }
}

pub fn starts_with(s: &[char], p: &[char]) -> (res: bool)
    ensures
        res == has_prefix(s@, p@),
{
    let r = matches_at(s, p, 0);
    assert(s@.take(p@.len() as int) =~= s@.subrange(0, p@.len() as int));
    r
}

/// `s` ends with `p`.
pub open spec fn has_suffix(s: Seq<char>, p: Seq<char>) -> bool {
    p.len() <= s.len() && s.skip(s.len() - p.len()) == p
}

pub fn ends_with(s: &[char], p: &[char]) -> (res: bool)
    ensures
        res == has_suffix(s@, p@),
{
    if p.len() > s.len() {
        return false;
    }
    let r = matches_at(s, p, s.len() - p.len());
    assert(s@.skip(s.len() - p.len()) =~= s@.subrange(s.len() - p.len(), s.len() as int));
    r
}

/// The ASCII lower-case form of a character; others are unchanged.
pub open spec fn ascii_lower(c: char) -> char {
    if 'A' <= c && c <= 'Z' {
        ((c as u32) + 32) as char
    } else {
        c
    }
}

/// The ASCII upper-case form of a character; others are unchanged.
pub open spec fn ascii_upper(c: char) -> char {
    if 'a' <= c && c <= 'z' {
        ((c as u32) - 32) as char
    } else {
        c
    }
}

/// The ASCII lower-case form of a character.
pub fn to_ascii_lower(c: char) -> (res: char)
    ensures
        res == ascii_lower(c),
{
    if 'A' <= c && c <= 'Z' {
        ((c as u8) + 32) as char
    } else {
        c
    }
}

/// Every character mapped to its ASCII lower-case form.
pub open spec fn lower_ascii_seq(s: Seq<char>) -> Seq<char> {
    Seq::new(s.len(), |i: int| ascii_lower(s[i]))
}

/// Every character mapped to its ASCII upper-case form.
pub open spec fn upper_ascii_seq(s: Seq<char>) -> Seq<char> {
    Seq::new(s.len(), |i: int| ascii_upper(s[i]))
}

/// The pieces of `s` between occurrences of `c` (`str::split` on a character):
/// there is always at least one piece.
pub open spec fn split_on(s: Seq<char>, c: char) -> Seq<Seq<char>>
    decreases s.len(),
{
    match find(s, seq![c]) {
        None => seq![s],
        Some(i) => {
            proof {
                lemma_find_from(s, seq![c], 0);
            }
            seq![s.take(i)] + split_on(s.skip(i + 1), c)
        },
    }
}

/// `str::split_once` on a character.
pub open spec fn split_once(s: Seq<char>, c: char) -> Option<(Seq<char>, Seq<char>)> {
    match find(s, seq![c]) {
        None => None,
        Some(i) => Some((s.take(i), s.skip(i + 1))),
    }
}

/// The character sequences held by a list of character vectors.
pub open spec fn chars_seqs(v: Seq<Vec<char>>) -> Seq<Seq<char>> {
    Seq::new(v.len(), |i: int| v[i]@)
}

/// The pieces of `s` between occurrences of `c`.
pub fn split_chars(s: &[char], c: char) -> (res: Vec<Vec<char>>)
    ensures
        chars_seqs(res@) == split_on(s@, c),
{
    let mut pat: Vec<char> = Vec::new();
    pat.push(c);
    let mut res: Vec<Vec<char>> = Vec::new();
    let mut start: usize = 0;
    assert(s@.skip(0) =~= s@);
    assert(pat@ =~= seq![c]);
    loop
        invariant_except_break
            start <= s.len(),
            chars_seqs(res@) + split_on(s@.skip(start as int), c) == split_on(s@, c),
        invariant
            pat@ == seq![c],
        ensures
            chars_seqs(res@) == split_on(s@, c),
        decreases s.len() - start,
    {
        let ghost rest = s@.skip(start as int);
        match find_chars_from(s, &pat, start) {
            None => {
                proof {
                    lemma_find_from(s@, seq![c], start as int);
                    lemma_find_from(rest, seq![c], 0);
                    if let Some(j) = find(rest, seq![c]) {
                        assert(rest.subrange(j, j + 1) =~= s@.subrange(start + j, start + j + 1));
                        assert(occurs_at(s@, seq![c], start + j));
                    }
                    assert(split_on(rest, c) == seq![rest]);
                }
                let piece = slice_range(s, start, s.len());
                assert(piece@ =~= rest);
                let ghost before = chars_seqs(res@);
                res.push(piece);
                assert(chars_seqs(res@) =~= before + seq![rest]);
                break ;
            },
            Some(i) => {
                proof {
                    lemma_find_from(s@, seq![c], start as int);
                    lemma_find_from(rest, seq![c], 0);
                    assert(rest.subrange(i - start, i - start + 1) =~= s@.subrange(
                        i as int,
                        i + 1,
                    ));
                    lemma_occurs_skip(s@, seq![c], start as int, i - start);
                    if let Some(j) = find(rest, seq![c]) {
                        lemma_occurs_skip(s@, seq![c], start as int, j);
                    }
                    assert(find(rest, seq![c]) == Some(i - start));
                }
                let piece = slice_range(s, start, i);
                assert(piece@ =~= rest.take(i - start));
                assert(rest.skip(i - start + 1) =~= s@.skip(i + 1));
                let ghost before = chars_seqs(res@);
                res.push(piece);
                assert(chars_seqs(res@) =~= before + seq![rest.take(i - start)]);
                start = i + 1;
            },
        }
    }
    res
}


/// `std::str::from_utf8`: the text that `v` encodes, exactly when `v` is
/// well-formed UTF-8.
#[verifier::external_body]
pub(crate) fn utf8_str(v: &[u8]) -> (res: Option<&str>)
    ensures
        res is Some <==> valid_utf8(v@),
        res matches Some(s) ==> s@ == decode_utf8(v@),
{
    std::str::from_utf8(v).ok()
}

/// `a` followed by `b`.
pub fn concat(a: &str, b: &str) -> (res: String)
    ensures
        res@ == a@ + b@,
{
    let mut res = a.to_owned();
    for c in it: b.chars()
        invariant
            res@ == a@ + it.seq().take(it.index() as int),
            it.seq() == b@,
    {
        res.push(c);
    }
    assert(b@.take(b@.len() as int) =~= b@);
    res
}

/// Appends every string of `more` to `res`, in order.
pub fn append_strings(res: &mut Vec<String>, more: &Vec<String>)
    ensures
        final(res).deep_view() == old(res).deep_view() + more.deep_view(),
{
    let ghost r0 = res.deep_view();
    for i in 0..more.len()
        invariant
            res.deep_view() =~= r0 + more.deep_view().take(i as int),
    {
        let ghost before = res.deep_view();
        res.push(more[i].clone());
        assert(res.deep_view() =~= before + seq![more[i as int]@]);
        assert(more.deep_view().take(i + 1) =~= more.deep_view().take(i as int) + seq![
            more[i as int]@,
        ]);
    }
    assert(more.deep_view().take(more.len() as int) =~= more.deep_view());
}


/// What `String::from_utf8_lossy` makes of `v`: the text it encodes, with each
/// ill-formed part replaced by U+FFFD.
pub uninterp spec fn utf8_lossy(v: Seq<u8>) -> Seq<char>;

/// `String::from_utf8_lossy`: the text of `v`, ill-formed parts replaced by
/// U+FFFD; on well-formed UTF-8 it is exactly the decoded text.
#[verifier::external_body]
pub(crate) fn utf8_lossy_string(v: &[u8]) -> (res: String)
    ensures
        res@ == utf8_lossy(v@),
        valid_utf8(v@) ==> res@ == decode_utf8(v@),
{
    String::from_utf8_lossy(v).into_owned()
}

/// `s` without the copies of `c` at its end (`str::trim_end_matches` with a char).
pub open spec fn trim_end_char(s: Seq<char>, c: char) -> Seq<char>
    decreases s.len(),
{
    if s.len() > 0 && s.last() == c {
        trim_end_char(s.drop_last(), c)
    } else {
        s
    }
}

/// `s` without the copies of `c` at its start (`str::trim_start_matches` with a char).
pub open spec fn trim_start_char(s: Seq<char>, c: char) -> Seq<char>
    decreases s.len(),
{
    if s.len() > 0 && s[0] == c {
        trim_start_char(s.drop_first(), c)
    } else {
        s
    }
}

pub fn trim_end_char_chars(s: &[char], c: char) -> (res: Vec<char>)
    ensures
        res@ == trim_end_char(s@, c),
{
    let mut b: usize = s.len();
    assert(s@.subrange(0, b as int) =~= s@);
    while b > 0 && s[b - 1] == c
        invariant
            b <= s.len(),
            trim_end_char(s@, c) == trim_end_char(s@.subrange(0, b as int), c),
        decreases b,
    {
        assert(s@.subrange(0, b as int).drop_last() =~= s@.subrange(0, b - 1));
        b = b - 1;
    }
    slice_range(s, 0, b)
}

pub fn trim_start_char_chars(s: &[char], c: char) -> (res: Vec<char>)
    ensures
        res@ == trim_start_char(s@, c),
{
    let mut a: usize = 0;
    assert(s@.skip(0) =~= s@);
    while a < s.len() && s[a] == c
        invariant
            a <= s.len(),
            trim_start_char(s@, c) == trim_start_char(s@.skip(a as int), c),
        decreases s.len() - a,
    {
        assert(s@.skip(a as int).drop_first() =~= s@.skip(a + 1));
        a = a + 1;
    }
    assert(s@.skip(a as int) =~= s@.subrange(a as int, s.len() as int));
    slice_range(s, a, s.len())
}

/// `c` is a decimal digit.
pub open spec fn is_digit(c: char) -> bool {
    '0' <= c && c <= '9'
}

/// Every character of `s` from `from` up to `to` is a decimal digit.
pub open spec fn digits_between(s: Seq<char>, from: int, to: int) -> bool {
    forall|i: int| from <= i < to ==> is_digit(#[trigger] s[i])
}

/// The value of a run of decimal digits.
pub open spec fn digits_value(s: Seq<char>) -> int
    decreases s.len(),
{
    if s.len() == 0 {
        0
    } else {
        digits_value(s.drop_last()) * 10 + (s.last() as int - '0' as int)
    }
}

/// Every character of `s` is a decimal digit.
pub open spec fn all_digits(s: Seq<char>) -> bool {
    forall|i: int| 0 <= i < s.len() ==> is_digit(#[trigger] s[i])
}

/// `s` without a leading `+` or `-` sign.
pub open spec fn unsigned_part(s: Seq<char>) -> Seq<char> {
    if s.len() > 0 && (s[0] == '-' || s[0] == '+') {
        s.skip(1)
    } else {
        s
    }
}

/// What `str::parse::<i32>` accepts: an optional `+` or `-` sign, then one or more
/// decimal digits, of a value that fits in 32 bits.
pub open spec fn parse_i32_spec(s: Seq<char>) -> Option<i32> {
    let digits = unsigned_part(s);
    if digits.len() == 0 || !all_digits(digits) {
        None
    } else {
        let v = if s[0] == '-' {
            -digits_value(digits)
        } else {
            digits_value(digits)
        };
        if i32::MIN <= v <= i32::MAX {
            Some(v as i32)
        } else {
            None
        }
    }
}

proof fn lemma_digits_value_mono(s: Seq<char>, i: int, j: int)
    requires
        0 <= i <= j <= s.len(),
        forall|k: int| 0 <= k < s.len() ==> is_digit(s[k]),
    ensures
        digits_value(s.take(i)) <= digits_value(s.take(j)),
        digits_value(s.take(j)) >= 0,
    decreases j,
{
    if j > 0 {
        assert(s.take(j).drop_last() =~= s.take(j - 1));
        assert(s.take(j).last() == s[j - 1]);
        if i < j {
            lemma_digits_value_mono(s, i, j - 1);
        } else {
            lemma_digits_value_mono(s, j - 1, j - 1);
        }
    } else {
        assert(s.take(0) =~= Seq::<char>::empty());
    }
}

/// `str::parse::<i32>`.
pub fn parse_i32(s: &[char]) -> (res: Option<i32>)
    ensures
        res == parse_i32_spec(s@),
{
    let neg = s.len() > 0 && s[0] == '-';
    let start: usize = if s.len() > 0 && (s[0] == '-' || s[0] == '+') {
        1
    } else {
        0
    };
    let ghost digits = unsigned_part(s@);
    assert(digits =~= s@.skip(start as int));
    if start == s.len() {
        return None;
    }
    let mut acc: i64 = 0;
    let mut i: usize = start;
    while i < s.len()
        invariant
            start <= i <= s.len(),
            start < s.len(),
            digits == unsigned_part(s@),
            digits =~= s@.skip(start as int),
            forall|k: int| 0 <= k < i - start ==> is_digit(digits[k]),
            acc == digits_value(digits.take(i - start)),
            0 <= acc <= 0x8000_0000,
        decreases s.len() - i,
    {
        let c = s[i];
        if !('0' <= c && c <= '9') {
            assert(!is_digit(digits[i - start]));
            assert(!all_digits(digits));
            return None;
        }
        let d = (c as u32 - '0' as u32) as i64;
        assert(digits.take(i - start + 1).drop_last() =~= digits.take(i - start));
        acc = acc * 10 + d;
        i = i + 1;
        if acc > 0x8000_0000 {
            proof {
                assert forall|k: int| 0 <= k < i - start implies is_digit(digits[k]) by {}
                if all_digits(digits) {
                    lemma_digits_value_mono(digits, i - start, digits.len() as int);
                    assert(digits.take(digits.len() as int) =~= digits);
                    assert(digits_value(digits) > 0x8000_0000);
                }
            }
            return None;
        }
    }
    assert(digits.take(digits.len() as int) =~= digits);
    if neg {
        Some((-acc) as i32)
    } else if acc <= 0x7fff_ffff {
        Some(acc as i32)
    } else {
        None
    }
}


/// Whether two strings hold the same characters.
pub fn str_eq(a: &str, b: &str) -> (res: bool)
    ensures
        res == (a@ == b@),
{
    let x = chars_of(a);
    let y = chars_of(b);
    if x.len() != y.len() {
        return false;
    }
    let mut i: usize = 0;
    while i < x.len()
        invariant
            x.len() == y.len(),
            x@ == a@,
            y@ == b@,
            i <= x.len(),
            forall|j: int| 0 <= j < i ==> x@[j] == y@[j],
        decreases x.len() - i,
    {
        if x[i] != y[i] {
            assert(a@[i as int] != b@[i as int]);
            return false;
        }
        i = i + 1;
    }
    assert(x@ =~= y@);
    true
}


/// Searching `s.skip(a)` finds what searching `s` from `a` finds, shifted by `a`.
pub proof fn lemma_find_skip(s: Seq<char>, p: Seq<char>, a: int)
    requires
        0 <= a <= s.len(),
    ensures
        match find_from(s, p, a) {
            None => find(s.skip(a), p) is None,
            Some(i) => find(s.skip(a), p) == Some(i - a),
        },
{
    lemma_find_from(s, p, a);
    lemma_find_from(s.skip(a), p, 0);
    match find_from(s, p, a) {
        None => {
            if let Some(j) = find(s.skip(a), p) {
                lemma_occurs_skip(s, p, a, j);
            }
        },
        Some(i) => {
            lemma_occurs_skip(s, p, a, i - a);
            if let Some(j) = find(s.skip(a), p) {
                lemma_occurs_skip(s, p, a, j);
                if j < i - a {
                    assert(!occurs_at(s, p, a + j));
                }
            }
        },
    }
}


/// Appends the characters of `t` to `s` (`String::push_str`).
pub fn push_str(s: &mut String, t: &str)
    ensures
        final(s)@ == old(s)@ + t@,
{
    let ghost s0 = s@;
    for c in it: t.chars()
        invariant
            s@ == s0 + it.seq().take(it.index() as int),
            it.seq() == t@,
    {
        s.push(c);
    }
    assert(t@.take(t@.len() as int) =~= t@);
}

/// `c` lower-cases (`char::to_lowercase`) to the ASCII character `t`: `t` itself,
/// its upper-case letter, or, for `k`, also the Kelvin sign U+212A.
pub open spec fn lowers_to(c: char, t: char) -> bool {
    ascii_lower(c) == t || (t == 'k' && c == '\u{212a}')
}

/// `s.to_lowercase() == t` for an all-lower-case ASCII `t`: no other character
/// lower-cases into ASCII, and none that expands into several characters does.
pub open spec fn lowercase_equals(s: Seq<char>, t: Seq<char>) -> bool {
    s.len() == t.len() && forall|i: int| 0 <= i < s.len() ==> lowers_to(s[i], t[i])
}

/// Whether `s.to_lowercase()` equals `t`, for `t` all lower-case ASCII.
pub fn chars_lowercase_equals(s: &[char], t: &[char]) -> (res: bool)
    ensures
        res == lowercase_equals(s@, t@),
{
    if s.len() != t.len() {
        return false;
    }
    let mut i: usize = 0;
    while i < s.len()
        invariant
            s.len() == t.len(),
            i <= s.len(),
            forall|j: int| 0 <= j < i ==> lowers_to(s@[j], t@[j]),
        decreases s.len() - i,
    {
        let c = s[i];
        let t_c = t[i];
        if !(to_ascii_lower(c) == t_c || (t_c == 'k' && c == '\u{212a}')) {
            return false;
        }
        i = i + 1;
    }
    true
}

/// `t` occurs somewhere in `s` (`str::contains`).
pub open spec fn contains(s: Seq<char>, t: Seq<char>) -> bool {
    find(s, t) is Some
}

pub fn str_contains(s: &str, t: &str) -> (res: bool)
    ensures
        res == contains(s@, t@),
{
    let a = chars_of(s);
    let b = chars_of(t);
    find_chars(a.as_slice(), b.as_slice()).is_some()
}


/// The decimal digits of `n`, without leading zeros (`format!("{}", n)`).
pub open spec fn decimal(n: nat) -> Seq<char>
    decreases n,
{
    if n < 10 {
        seq![('0' as u8 + n) as char]
    } else {
        decimal(n / 10) + seq![('0' as u8 + (n % 10)) as char]
    }
}

/// `n` in decimal.
pub fn decimal_string(n: u64) -> (res: String)
    ensures
        res@ == decimal(n as nat),
    decreases n,
{
    let d = (n % 10) as u8;
    let c = (('0' as u8) + d) as char;
    if n < 10 {
        let mut s = String::new();
        s.push(c);
        assert(s@ =~= seq![c]);
        s
    } else {
        let mut s = decimal_string(n / 10);
        s.push(c);
        s
    }
}

/// The number of bytes of a character's UTF-8 encoding.
pub open spec fn char_width(c: char) -> int {
    encode_scalar(c as u32).len() as int
}

/// The longest prefix of `s` whose UTF-8 encoding takes at most `n` bytes.
pub open spec fn chars_within(s: Seq<char>, n: int) -> Seq<char>
    decreases s.len(),
{
    if s.len() == 0 {
        seq![]
    } else if char_width(s[0]) <= n {
        seq![s[0]] + chars_within(s.drop_first(), n - char_width(s[0]))
    } else {
        seq![]
    }
}

/// Whether byte `n` of the UTF-8 encoding of `s` falls between two characters
/// (or at the end).
pub open spec fn boundary_at(s: Seq<char>, n: int) -> bool
    decreases s.len(),
{
    n == 0 || (s.len() > 0 && char_width(s[0]) <= n && boundary_at(s.drop_first(), n - char_width(s[0])))
}

/// The number of bytes of a character's UTF-8 encoding (`char::len_utf8`).
pub fn utf8_width(c: char) -> (res: usize)
    ensures
        res == char_width(c),
        1 <= res <= 4,
{
    proof {
        char_is_scalar(c);
    }
    let v = c as u32;
    if v < 0x80 {
        1
    } else if v < 0x800 {
        2
    } else if v < 0x10000 {
        3
    } else {
        4
    }
}

/// The first `n` bytes of `s` as text (`&s[..n]`, or all of `s` when it is
/// shorter), or `None` when byte `n` falls inside a character.
pub fn first_bytes(s: &str, n: usize) -> (res: Option<String>)
    ensures
        res is Some <==> (chars_within(s@, n as int) == s@ || boundary_at(s@, n as int)),
        res matches Some(t) ==> t@ == chars_within(s@, n as int),
{
    let cs = chars_of(s);
    let mut i: usize = 0;
    let mut b: usize = 0;
    let mut done = false;
    assert(cs@.skip(0) =~= cs@);
    assert(cs@.take(0) + chars_within(cs@, n as int) =~= chars_within(cs@, n as int));
    while i < cs.len() && !done
        invariant
            cs@ == s@,
            i <= cs.len(),
            b <= n,
            chars_within(cs@, n as int) == cs@.take(i as int) + chars_within(cs@.skip(i as int), n - b),
            boundary_at(cs@, n as int) == boundary_at(cs@.skip(i as int), n - b),
            done ==> i < cs.len() && char_width(cs@[i as int]) > n - b,
        decreases cs.len() - i + (if done { 0int } else { 1int }),
    {
        let w = utf8_width(cs[i]);
        if w <= n - b {
            let ghost t = cs@.skip(i as int);
            assert(t[0] == cs@[i as int]);
            assert(t.drop_first() =~= cs@.skip(i + 1));
            assert(cs@.take(i + 1) =~= cs@.take(i as int) + seq![cs@[i as int]]);
            assert(chars_within(t, n - b) == seq![t[0]] + chars_within(t.drop_first(), n - b - w));
            assert(cs@.take(i as int) + (seq![t[0]] + chars_within(t.drop_first(), n - b - w)) =~= cs@.take(i + 1) + chars_within(cs@.skip(i + 1), n - (b + w)));
            b = b + w;
            i = i + 1;
        } else {
            done = true;
        }
    }
    let ghost t = cs@.skip(i as int);
    if i == cs.len() {
        assert(t =~= Seq::<char>::empty());
        assert(cs@.take(i as int) =~= cs@);
        assert(chars_within(cs@, n as int) =~= cs@);
        Some(string_of(cs.as_slice()))
    } else {
        assert(t[0] == cs@[i as int]);
        assert(chars_within(t, n - b) =~= Seq::<char>::empty());
        assert(chars_within(cs@, n as int) =~= cs@.take(i as int));
        assert(chars_within(cs@, n as int).len() < cs@.len());
        if b == n {
            let head = slice_range(cs.as_slice(), 0, i);
            assert(head@ =~= cs@.take(i as int));
            Some(string_of(head.as_slice()))
        } else {
            None
        }
    }
}


/// When nothing before `w`'s end starts like `p`, the first occurrence of `p`
/// in `w + p + rest` is right after `w`.
pub proof fn lemma_find_after_prefix(w: Seq<char>, p: Seq<char>, rest: Seq<char>)
    requires
        p.len() > 0,
        forall|i: int| 0 <= i < w.len() ==> w[i] != p[0],
    ensures
        find(w + p + rest, p) == Some(w.len() as int),
{
    let s = w + p + rest;
    lemma_find_from(s, p, 0);
    assert(s.subrange(w.len() as int, (w.len() + p.len()) as int) =~= p);
    assert(occurs_at(s, p, w.len() as int));
    assert forall|k: int| 0 <= k < w.len() implies !occurs_at(s, p, k) by {
        if occurs_at(s, p, k) {
            assert(s.subrange(k, k + p.len())[0] == s[k]);
        }
    }
}

/// When no character of `s` is `p`'s first, `p` does not occur in `s`.
pub proof fn lemma_find_none(s: Seq<char>, p: Seq<char>)
    requires
        p.len() > 0,
        forall|i: int| 0 <= i < s.len() ==> s[i] != p[0],
    ensures
        find(s, p) is None,
{
    lemma_find_from(s, p, 0);
    if let Some(j) = find(s, p) {
        assert(s.subrange(j, j + p.len())[0] == s[j]);
    }
}

} // verus!
