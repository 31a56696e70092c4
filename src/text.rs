//! Character-level helpers: whitespace, trimming, prefixes and string building.
use vstd::prelude::*;

verus! {

/// Unicode `White_Space`, the set of characters that `char::is_whitespace` accepts.
pub open spec fn is_ws(c: char) -> bool {
    ('\t' <= c && c <= '\r') || c == ' ' || c == '\u{85}' || c == '\u{a0}' || c == '\u{1680}'
        || ('\u{2000}' <= c && c <= '\u{200a}') || c == '\u{2028}' || c == '\u{2029}'
        || c == '\u{202f}' || c == '\u{205f}' || c == '\u{3000}'
}

/// A line that holds whitespace only (the empty line included).
pub open spec fn is_blank(s: Seq<char>) -> bool {
    forall|i: int| 0 <= i < s.len() ==> is_ws(#[trigger] s[i])
}

pub open spec fn trim_end(s: Seq<char>) -> Seq<char>
    decreases s.len(),
{
    if s.len() > 0 && is_ws(s.last()) {
        trim_end(s.drop_last())
    } else {
        s
    }
}

pub open spec fn trim_start(s: Seq<char>) -> Seq<char>
    decreases s.len(),
{
    if s.len() > 0 && is_ws(s[0]) {
        trim_start(s.drop_first())
    } else {
        s
    }
}

/// Whitespace removed at both ends.
pub open spec fn trim(s: Seq<char>) -> Seq<char> {
    trim_start(trim_end(s))
}

pub open spec fn starts_with(s: Seq<char>, p: Seq<char>) -> bool {
    p.len() <= s.len() && s.subrange(0, p.len() as int) == p
}

pub open spec fn strip_prefix(s: Seq<char>, p: Seq<char>) -> Option<Seq<char>> {
    if starts_with(s, p) {
        Some(s.subrange(p.len() as int, s.len() as int))
    } else {
        None
    }
}

pub open spec fn opt_view(o: Option<String>) -> Option<Seq<char>> {
    match o {
        Some(s) => Some(s@),
        None => None,
    }
}

/// `p` occurs in `s` at index `i`.
pub open spec fn occurs_at(s: Seq<char>, p: Seq<char>, i: int) -> bool {
    0 <= i && i + p.len() <= s.len() && s.subrange(i, i + p.len()) == p
}

/// The first index at or after `from` where `p` occurs in `s`.
pub open spec fn find_from(s: Seq<char>, p: Seq<char>, from: int) -> Option<int>
    decreases s.len() + 1 - from,
{
    if from < 0 || from + p.len() > s.len() {
        None
    } else if occurs_at(s, p, from) {
        Some(from)
    } else {
        find_from(s, p, from + 1)
    }
}

pub proof fn lemma_find_from(s: Seq<char>, p: Seq<char>, from: int)
    ensures
        find_from(s, p, from) matches Some(i) ==> from <= i && occurs_at(s, p, i),
    decreases s.len() + 1 - from,
{
    if !(from < 0 || from + p.len() > s.len()) && !occurs_at(s, p, from) {
        lemma_find_from(s, p, from + 1);
    }
}

/// The first index where `p` occurs in `s`.
pub open spec fn find(s: Seq<char>, p: Seq<char>) -> Option<int> {
    find_from(s, p, 0)
}

pub open spec fn has_content(s: Seq<char>) -> bool {
    exists|i: int| 0 <= i < s.len() && !is_ws(#[trigger] s[i])
}

/// Trimming the end of `x + y` stops inside `y` when `y` holds a non-whitespace character.
pub proof fn lemma_trim_end_concat(x: Seq<char>, y: Seq<char>)
    requires
        has_content(y),
    ensures
        trim_end(x + y) == x + trim_end(y),
    decreases y.len(),
{
    let i = choose|i: int| 0 <= i < y.len() && !is_ws(#[trigger] y[i]);
    assert((x + y).last() == y.last());
    if is_ws(y.last()) {
        assert(i < y.len() - 1);
        assert(y.drop_last()[i] == y[i]);
        assert((x + y).drop_last() =~= x + y.drop_last());
        lemma_trim_end_concat(x, y.drop_last());
    }
}

/// Trimming the start of `x + y` stops inside `x` when `x` holds a non-whitespace character.
pub proof fn lemma_trim_start_concat(x: Seq<char>, y: Seq<char>)
    requires
        has_content(x),
    ensures
        trim_start(x + y) == trim_start(x) + y,
    decreases x.len(),
{
    let i = choose|i: int| 0 <= i < x.len() && !is_ws(#[trigger] x[i]);
    assert((x + y)[0] == x[0]);
    if is_ws(x[0]) {
        assert(i > 0);
        assert(x.drop_first()[i - 1] == x[i]);
        assert((x + y).drop_first() =~= x.drop_first() + y);
        lemma_trim_start_concat(x.drop_first(), y);
    }
}

/// Relies on `str::chars`: the characters of `s`, in order.
#[verifier::external_body]
pub(crate) fn chars_of(s: &str) -> (r: Vec<char>)
    ensures
        r@ == s@,
{
    s.chars().collect()
}

/// Relies on `String::push`: appends one character.
#[verifier::external_body]
pub(crate) fn push_char(s: &mut String, c: char)
    ensures
        final(s)@ == old(s)@.push(c),
{
    s.push(c)
}

/// The string holding the characters `v[from..to]`.
pub(crate) fn string_of_range(v: &Vec<char>, from: usize, to: usize) -> (r: String)
    requires
        from <= to <= v@.len(),
    ensures
        r@ == v@.subrange(from as int, to as int),
{
    let mut r = String::new();
    let mut i = from;
    while i < to
        invariant
            from <= i <= to <= v@.len(),
            r@ == v@.subrange(from as int, i as int),
        decreases to - i,
    {
        push_char(&mut r, v[i]);
        assert(v@.subrange(from as int, i + 1) == v@.subrange(from as int, i as int).push(v@[i as int]));
        i = i + 1;
    }
    r
}

pub fn is_whitespace(c: char) -> (r: bool)
    ensures
        r == is_ws(c),
{
    ('\t' <= c && c <= '\r') || c == ' ' || c == '\u{85}' || c == '\u{a0}' || c == '\u{1680}'
        || ('\u{2000}' <= c && c <= '\u{200a}') || c == '\u{2028}' || c == '\u{2029}'
        || c == '\u{202f}' || c == '\u{205f}' || c == '\u{3000}'
}

pub fn is_blank_line(s: &str) -> (r: bool)
    ensures
        r == is_blank(s@),
{
    let v = chars_of(s);
    let mut i: usize = 0;
    while i < v.len()
        invariant
            v@ == s@,
            i <= v@.len(),
            forall|j: int| 0 <= j < i ==> is_ws(#[trigger] s@[j]),
        decreases v@.len() - i,
    {
        if !is_whitespace(v[i]) {
            return false;
        }
        i = i + 1;
    }
    true
}

proof fn lemma_trim_end_prefix(s: Seq<char>, e: int)
    requires
        0 <= e <= s.len(),
        forall|j: int| e <= j < s.len() ==> is_ws(#[trigger] s[j]),
    ensures
        trim_end(s) == trim_end(s.subrange(0, e)),
    decreases s.len() - e,
{
    if e < s.len() {
        assert(s.drop_last() =~= s.subrange(0, s.len() - 1));
        assert(s.subrange(0, s.len() - 1).subrange(0, e) =~= s.subrange(0, e));
        lemma_trim_end_prefix(s.drop_last(), e);
    } else {
        assert(s.subrange(0, e) =~= s);
    }
}

proof fn lemma_trim_start_suffix(s: Seq<char>, b: int)
    requires
        0 <= b <= s.len(),
        forall|j: int| 0 <= j < b ==> is_ws(#[trigger] s[j]),
    ensures
        trim_start(s) == trim_start(s.subrange(b, s.len() as int)),
    decreases b,
{
    if b > 0 {
        assert(s.drop_first().subrange(b - 1, s.drop_first().len() as int) =~= s.subrange(b, s.len() as int));
        lemma_trim_start_suffix(s.drop_first(), b - 1);
    } else {
        assert(s.subrange(0, s.len() as int) =~= s);
    }
}

/// The index past the last non-whitespace character of `v[..to]`.
fn end_of_content(v: &Vec<char>, to: usize) -> (e: usize)
    requires
        to <= v@.len(),
    ensures
        e <= to,
        trim_end(v@.subrange(0, to as int)) == v@.subrange(0, e as int),
{
    let mut e = to;
    while e > 0 && is_whitespace(v[e - 1])
        invariant
            e <= to <= v@.len(),
            forall|j: int| e <= j < to ==> is_ws(#[trigger] v@[j]),
        decreases e,
    {
        e = e - 1;
    }
    let ghost s = v@.subrange(0, to as int);
    proof {
        assert forall|j: int| e <= j < s.len() implies is_ws(#[trigger] s[j]) by {
            assert(s[j] == v@[j]);
        }
        lemma_trim_end_prefix(s, e as int);
        assert(s.subrange(0, e as int) =~= v@.subrange(0, e as int));
        let t = v@.subrange(0, e as int);
        if e > 0 {
            assert(t.last() == v@[e - 1]);
        }
    }
    e
}

/// The index of the first non-whitespace character of `v[from..to]`.
fn start_of_content(v: &Vec<char>, from: usize, to: usize) -> (b: usize)
    requires
        from <= to <= v@.len(),
    ensures
        from <= b <= to,
        trim_start(v@.subrange(from as int, to as int)) == v@.subrange(b as int, to as int),
{
    let mut b = from;
    while b < to && is_whitespace(v[b])
        invariant
            from <= b <= to <= v@.len(),
            forall|j: int| from <= j < b ==> is_ws(#[trigger] v@[j]),
        decreases to - b,
    {
        b = b + 1;
    }
    let ghost s = v@.subrange(from as int, to as int);
    proof {
        assert forall|j: int| 0 <= j < b - from implies is_ws(#[trigger] s[j]) by {
            assert(s[j] == v@[from + j]);
        }
        lemma_trim_start_suffix(s, b - from);
        assert(s.subrange(b - from, s.len() as int) =~= v@.subrange(b as int, to as int));
    }
    b
}

pub fn trim_str(s: &str) -> (r: String)
    ensures
        r@ == trim(s@),
{
    let v = chars_of(s);
    let e = end_of_content(&v, v.len());
    assert(v@.subrange(0, v@.len() as int) =~= v@);
    let b = start_of_content(&v, 0, e);
    string_of_range(&v, b, e)
}

pub fn trim_end_str(s: &str) -> (r: String)
    ensures
        r@ == trim_end(s@),
{
    let v = chars_of(s);
    let e = end_of_content(&v, v.len());
    assert(v@.subrange(0, v@.len() as int) =~= v@);
    string_of_range(&v, 0, e)
}

pub fn starts_with_str(s: &str, p: &str) -> (r: bool)
    ensures
        r == starts_with(s@, p@),
{
    let v = chars_of(s);
    let w = chars_of(p);
    if w.len() > v.len() {
        return false;
    }
    let mut i: usize = 0;
    while i < w.len()
        invariant
            v@ == s@,
            w@ == p@,
            w@.len() <= v@.len(),
            i <= w@.len(),
            forall|j: int| 0 <= j < i ==> v@[j] == w@[j],
        decreases w@.len() - i,
    {
        if v[i] != w[i] {
            assert(s@.subrange(0, p@.len() as int)[i as int] != p@[i as int]);
            return false;
        }
        i = i + 1;
    }
    assert(s@.subrange(0, p@.len() as int) =~= p@);
    true
}

pub fn strip_prefix_str(s: &str, p: &str) -> (r: Option<String>)
    ensures
        r matches Some(t) ==> strip_prefix(s@, p@) == Some(t@),
        r is None ==> strip_prefix(s@, p@) is None,
{
    if starts_with_str(s, p) {
        let v = chars_of(s);
        let w = chars_of(p);
        Some(string_of_range(&v, w.len(), v.len()))
    } else {
        None
    }
}

pub fn eq_str(s: &str, t: &str) -> (r: bool)
    ensures
        r == (s@ == t@),
{
    let v = chars_of(s);
    let w = chars_of(t);
    if v.len() != w.len() {
        return false;
    }
    let mut i: usize = 0;
    while i < v.len()
        invariant
            v@ == s@,
            w@ == t@,
            v@.len() == w@.len(),
            i <= v@.len(),
            forall|j: int| 0 <= j < i ==> v@[j] == w@[j],
        decreases v@.len() - i,
    {
        if v[i] != w[i] {
            return false;
        }
        i = i + 1;
    }
    assert(v@ =~= w@);
    true
}

/// Whether `p` occurs in `v` at `i`.
fn occurs_at_vec(v: &Vec<char>, p: &Vec<char>, i: usize) -> (r: bool)
    requires
        i + p@.len() <= v@.len(),
    ensures
        r == occurs_at(v@, p@, i as int),
{
    let n = v.len();
    let mut j: usize = 0;
    while j < p.len()
        invariant
            n == v@.len(),
            i + p@.len() <= v@.len(),
            j <= p@.len(),
            forall|k: int| 0 <= k < j ==> v@[i + k] == p@[k],
        decreases p@.len() - j,
    {
        if v[i + j] != p[j] {
            assert(v@.subrange(i as int, i + p@.len())[j as int] != p@[j as int]);
            return false;
        }
        j = j + 1;
    }
    assert(v@.subrange(i as int, i + p@.len()) =~= p@);
    true
}

/// The first index at or after `from` where `p` occurs in `v`.
pub(crate) fn find_vec(v: &Vec<char>, p: &Vec<char>, from: usize) -> (r: Option<usize>)
    ensures
        r matches Some(i) ==> find_from(v@, p@, from as int) == Some(i as int),
        r is None ==> find_from(v@, p@, from as int) is None,
{
    if p.len() > v.len() {
        return None;
    }
    let mut i = from;
    while i <= v.len() - p.len()
        invariant
            p@.len() <= v@.len(),
            from <= i,
            find_from(v@, p@, from as int) == find_from(v@, p@, i as int),
        decreases v@.len() - i,
    {
        if occurs_at_vec(v, p, i) {
            return Some(i);
        }
        proof {
            if p@.len() == 0 {
                assert(v@.subrange(i as int, i as int) =~= p@);
            }
        }
        i = i + 1;
    }
    None
}

/// Splits `s` at the first occurrence of `sep`: the part before it and the part after it.
pub fn split_once_str(s: &str, sep: &str) -> (r: Option<(String, String)>)
    ensures
        r matches Some(parts) ==> find(s@, sep@) matches Some(i) && 0 <= i && i + sep@.len()
            <= s@.len() && parts.0@ == s@.subrange(0, i)
            && parts.1@ == s@.subrange(i + sep@.len(), s@.len() as int),
        r is None ==> find(s@, sep@) is None,
{
    let v = chars_of(s);
    let p = chars_of(sep);
    match find_vec(&v, &p, 0) {
        Some(i) => {
            proof {
                lemma_find_from(v@, p@, 0);
                assert(occurs_at(v@, p@, i as int));
            }
            let n = v.len();
            let k = p.len();
            Some((string_of_range(&v, 0, i), string_of_range(&v, i + k, n)))
        },
        None => None,
    }
}

} // verus!
