//! Character-level text handling shared by the filename, genre and setlist
//! logic: whitespace trimming, pattern search and string building.
use vstd::prelude::*;

verus! {

/// The Unicode `White_Space` property, as `char::is_whitespace` defines it.
pub open spec fn is_white_space(c: char) -> bool {
    let u = c as u32;
    ||| u == 0x20
    ||| 0x09 <= u <= 0x0d
    ||| u == 0x85
    ||| u == 0xa0
    ||| u == 0x1680
    ||| 0x2000 <= u <= 0x200a
    ||| u == 0x2028
    ||| u == 0x2029
    ||| u == 0x202f
    ||| u == 0x205f
    ||| u == 0x3000
}

/// Whether std's `char::is_numeric` holds (general categories Nd, Nl, No).
pub uninterp spec fn numeric_char(c: char) -> bool;

/// Whether std's `char::is_alphanumeric` holds (Alphabetic or numeric).
pub uninterp spec fn alphanumeric_char(c: char) -> bool;

/// The characters of std's `str::to_lowercase` applied to `s`.
pub uninterp spec fn lowercase_of(s: Seq<char>) -> Seq<char>;

/// Whether `c` is whitespace, as `char::is_whitespace` decides it: true
/// exactly for the `White_Space` code points.
pub(crate) fn char_is_whitespace(c: char) -> (r: bool)
    ensures
        r == is_white_space(c),
{
    let u = c as u32;
    u == 0x20 || (0x09 <= u && u <= 0x0d) || u == 0x85 || u == 0xa0 || u == 0x1680 || (0x2000 <= u
        && u <= 0x200a) || u == 0x2028 || u == 0x2029 || u == 0x202f || u == 0x205f || u == 0x3000
}

/// std `char::is_numeric`; what it returns is named by `numeric_char`.
#[verifier::external_body]
pub(crate) fn char_is_numeric(c: char) -> (r: bool)
    ensures
        r == numeric_char(c),
{
    c.is_numeric()
}

/// std `char::is_alphanumeric`; what it returns is named by `alphanumeric_char`.
#[verifier::external_body]
pub(crate) fn char_is_alphanumeric(c: char) -> (r: bool)
    ensures
        r == alphanumeric_char(c),
{
    c.is_alphanumeric()
}

/// std `str::to_lowercase`; its result is named by `lowercase_of`.
#[verifier::external_body]
pub(crate) fn to_lowercase(s: &str) -> (r: String)
    ensures
        r@ == lowercase_of(s@),
{
    s.to_lowercase()
}

/// std `String::push`: appends one character.
#[verifier::external_body]
pub(crate) fn string_push(s: &mut String, c: char)
    ensures
        final(s)@ == old(s)@.push(c),
{
    s.push(c)
}

/// Drop the leading characters of `s` that satisfy `p`.
pub open spec fn trim_start_by(s: Seq<char>, p: spec_fn(char) -> bool) -> Seq<char>
    decreases s.len(),
{
    if s.len() > 0 && p(s[0]) {
        trim_start_by(s.drop_first(), p)
    } else {
        s
    }
}

/// Drop the trailing characters of `s` that satisfy `p`.
pub open spec fn trim_end_by(s: Seq<char>, p: spec_fn(char) -> bool) -> Seq<char>
    decreases s.len(),
{
    if s.len() > 0 && p(s.last()) {
        trim_end_by(s.drop_last(), p)
    } else {
        s
    }
}

pub open spec fn white_space_pred() -> spec_fn(char) -> bool {
    |c: char| is_white_space(c)
}

/// `str::trim`: drop leading and trailing whitespace.
pub open spec fn trim(s: Seq<char>) -> Seq<char> {
    trim_end_by(trim_start_by(s, white_space_pred()), white_space_pred())
}

/// First index at which `pat` occurs in `s` at or after `from`.
pub open spec fn find_from(s: Seq<char>, pat: Seq<char>, from: int) -> Option<int>
    decreases s.len() - from,
{
    if from < 0 || from + pat.len() > s.len() {
        None
    } else if s.subrange(from, from + pat.len()) == pat {
        Some(from)
    } else if from >= s.len() {
        None
    } else {
        find_from(s, pat, from + 1)
    }
}

/// First index at which `pat` occurs in `s`.
pub open spec fn find(s: Seq<char>, pat: Seq<char>) -> Option<int> {
    find_from(s, pat, 0)
}

/// Whether `pat` occurs somewhere in `s`.
pub open spec fn contains(s: Seq<char>, pat: Seq<char>) -> bool {
    exists|i: int| 0 <= i && i + pat.len() <= s.len() && #[trigger] s.subrange(i, i + pat.len()) == pat
}

/// Last index of `c` in the first `upto` characters of `s`.
pub open spec fn rfind_char_upto(s: Seq<char>, c: char, upto: int) -> Option<int>
    decreases upto,
{
    if upto <= 0 {
        None
    } else if s[upto - 1] == c {
        Some(upto - 1)
    } else {
        rfind_char_upto(s, c, upto - 1)
    }
}

/// Last index of `c` in `s`.
pub open spec fn rfind_char(s: Seq<char>, c: char) -> Option<int> {
    rfind_char_upto(s, c, s.len() as int)
}

/// The characters of a string slice, one per element.
pub fn chars_of(s: &str) -> (v: Vec<char>)
    ensures
        v@ == s@,
{
    let n = s.unicode_len();
    let mut v: Vec<char> = Vec::new();
    let mut i: usize = 0;
    while i < n
        invariant
            n == s@.len(),
            i <= n,
            v@ == s@.subrange(0, i as int),
        decreases n - i,
    {
        let c = s.get_char(i);
        v.push(c);
        i = i + 1;
        assert(v@ =~= s@.subrange(0, i as int));
    }
    assert(v@ =~= s@);
    v
}

/// A string holding `v[lo..hi]`.
pub fn string_of_range(v: &Vec<char>, lo: usize, hi: usize) -> (s: String)
    requires
        lo <= hi <= v@.len(),
    ensures
        s@ == v@.subrange(lo as int, hi as int),
{
    let mut s = String::new();
    let mut i = lo;
    while i < hi
        invariant
            lo <= i <= hi,
            hi <= v@.len(),
            s@ == v@.subrange(lo as int, i as int),
        decreases hi - i,
    {
        string_push(&mut s, v[i]);
        i = i + 1;
        assert(s@ =~= v@.subrange(lo as int, i as int));
    }
    s
}

/// Trimming `s` from the front is unchanged by first dropping `k` leading
/// characters that all satisfy `p`.
pub proof fn lemma_trim_start_skip(s: Seq<char>, p: spec_fn(char) -> bool, k: int)
    requires
        0 <= k <= s.len(),
        forall|i: int| 0 <= i < k ==> p(#[trigger] s[i]),
    ensures
        trim_start_by(s, p) == trim_start_by(s.subrange(k, s.len() as int), p),
    decreases k,
{
    if k == 0 {
        assert(s.subrange(0, s.len() as int) =~= s);
    } else {
        let t = s.drop_first();
        assert forall|i: int| 0 <= i < k - 1 implies p(#[trigger] t[i]) by {
            assert(t[i] == s[i + 1]);
        }
        lemma_trim_start_skip(t, p, k - 1);
        assert(t.subrange(k - 1, t.len() as int) =~= s.subrange(k, s.len() as int));
    }
}

/// Trimming `s` from the back is unchanged by first dropping the characters
/// after index `k` when they all satisfy `p`.
pub proof fn lemma_trim_end_skip(s: Seq<char>, p: spec_fn(char) -> bool, k: int)
    requires
        0 <= k <= s.len(),
        forall|i: int| k <= i < s.len() ==> p(#[trigger] s[i]),
    ensures
        trim_end_by(s, p) == trim_end_by(s.subrange(0, k), p),
    decreases s.len() - k,
{
    if k == s.len() {
        assert(s.subrange(0, k) =~= s);
    } else {
        let t = s.drop_last();
        assert forall|i: int| k <= i < t.len() implies p(#[trigger] t[i]) by {
            assert(t[i] == s[i]);
        }
        assert(p(s[s.len() - 1]));
        lemma_trim_end_skip(t, p, k);
        assert(t.subrange(0, k) =~= s.subrange(0, k));
    }
}

/// Index of the first character of `v[lo..hi]` that fails `is_white_space`,
/// or `hi`; the characters before it are all whitespace.
pub fn skip_white_space_start(v: &Vec<char>, lo: usize, hi: usize) -> (k: usize)
    requires
        lo <= hi <= v@.len(),
    ensures
        lo <= k <= hi,
        trim_start_by(v@.subrange(lo as int, hi as int), white_space_pred()) == v@.subrange(
            k as int,
            hi as int,
        ),
{
    let ghost s = v@.subrange(lo as int, hi as int);
    let mut k = lo;
    while k < hi && char_is_whitespace(v[k])
        invariant
            lo <= k <= hi,
            hi <= v@.len(),
            s == v@.subrange(lo as int, hi as int),
            forall|i: int| 0 <= i < k - lo ==> is_white_space(#[trigger] s[i]),
        decreases hi - k,
    {
        assert(s[k - lo] == v@[k as int]);
        k = k + 1;
    }
    proof {
        let p = white_space_pred();
        assert forall|i: int| 0 <= i < k - lo implies p(#[trigger] s[i]) by {}
        lemma_trim_start_skip(s, p, k - lo);
        assert(s.subrange(k - lo, s.len() as int) =~= v@.subrange(k as int, hi as int));
        let rest = v@.subrange(k as int, hi as int);
        if rest.len() > 0 {
            assert(rest[0] == v@[k as int]);
        }
    }
    k
}

/// Index just past the last character of `v[lo..hi]` that fails
/// `is_white_space`, or `lo`; the characters after it are all whitespace.
pub fn skip_white_space_end(v: &Vec<char>, lo: usize, hi: usize) -> (k: usize)
    requires
        lo <= hi <= v@.len(),
    ensures
        lo <= k <= hi,
        trim_end_by(v@.subrange(lo as int, hi as int), white_space_pred()) == v@.subrange(
            lo as int,
            k as int,
        ),
{
    let ghost s = v@.subrange(lo as int, hi as int);
    let mut k = hi;
    while k > lo && char_is_whitespace(v[k - 1])
        invariant
            lo <= k <= hi,
            hi <= v@.len(),
            s == v@.subrange(lo as int, hi as int),
            forall|i: int| k - lo <= i < s.len() ==> is_white_space(#[trigger] s[i]),
        decreases k - lo,
    {
        assert(s[k - 1 - lo] == v@[k - 1]);
        k = k - 1;
    }
    proof {
        let p = white_space_pred();
        assert forall|i: int| k - lo <= i < s.len() implies p(#[trigger] s[i]) by {}
        lemma_trim_end_skip(s, p, k - lo);
        assert(s.subrange(0, k - lo) =~= v@.subrange(lo as int, k as int));
        let rest = v@.subrange(lo as int, k as int);
        if rest.len() > 0 {
            assert(rest.last() == v@[k - 1]);
        }
    }
    k
}

/// A copy of `v[lo..hi]`.
pub fn sub_vec(v: &Vec<char>, lo: usize, hi: usize) -> (r: Vec<char>)
    requires
        lo <= hi <= v@.len(),
    ensures
        r@ == v@.subrange(lo as int, hi as int),
{
    let mut r: Vec<char> = Vec::new();
    let mut i = lo;
    while i < hi
        invariant
            lo <= i <= hi,
            hi <= v@.len(),
            r@ == v@.subrange(lo as int, i as int),
        decreases hi - i,
    {
        r.push(v[i]);
        i = i + 1;
        assert(r@ =~= v@.subrange(lo as int, i as int));
    }
    r
}

/// Whether two character sequences are equal.
pub fn chars_equal(a: &Vec<char>, b: &Vec<char>) -> (r: bool)
    ensures
        r == (a@ == b@),
{
    if a.len() != b.len() {
        return false;
    }
    let n = a.len();
    let mut i: usize = 0;
    while i < n
        invariant
            n == a@.len(),
            n == b@.len(),
            i <= n,
            forall|k: int| 0 <= k < i ==> a@[k] == b@[k],
        decreases n - i,
    {
        if a[i] != b[i] {
            return false;
        }
        i = i + 1;
    }
    assert(a@ =~= b@);
    true
}

/// Bounds `(a, b)` with `v[a..b] == trim(v[lo..hi])`.
pub fn trim_range(v: &Vec<char>, lo: usize, hi: usize) -> (r: (usize, usize))
    requires
        lo <= hi <= v@.len(),
    ensures
        lo <= r.0 <= r.1 <= hi,
        v@.subrange(r.0 as int, r.1 as int) == trim(v@.subrange(lo as int, hi as int)),
{
    let a = skip_white_space_start(v, lo, hi);
    let b = skip_white_space_end(v, a, hi);
    (a, b)
}

/// `str::trim` on a string slice.
pub fn trim_str(s: &str) -> (r: String)
    ensures
        r@ == trim(s@),
{
    let v = chars_of(s);
    let (a, b) = trim_range(&v, 0, v.len());
    assert(v@.subrange(0, v@.len() as int) =~= v@);
    string_of_range(&v, a, b)
}

/// Whether `pat` occurs in `v` at index `at`.
pub fn matches_at(v: &Vec<char>, pat: &Vec<char>, at: usize) -> (r: bool)
    requires
        at + pat@.len() <= v@.len(),
    ensures
        r == (v@.subrange(at as int, at + pat@.len()) == pat@),
{
    let m = pat.len();
    let n = v.len();
    let mut j: usize = 0;
    while j < m
        invariant
            n == v@.len(),
            j <= m,
            m == pat@.len(),
            at + m <= v@.len(),
            forall|t: int| 0 <= t < j ==> v@[at + t] == pat@[t],
        decreases m - j,
    {
        assert(at + j < v@.len());
        if v[at + j] != pat[j] {
            assert(v@.subrange(at as int, at + m)[j as int] != pat@[j as int]);
            return false;
        }
        j = j + 1;
    }
    assert(v@.subrange(at as int, at + m) =~= pat@);
    true
}

/// First index of `pat` in `v`, as `find` defines it.
pub fn find_pattern(v: &Vec<char>, pat: &Vec<char>) -> (r: Option<usize>)
    ensures
        r matches Some(i) ==> find(v@, pat@) == Some(i as int),
        r is None ==> find(v@, pat@) is None,
{
    let n = v.len();
    let m = pat.len();
    if m > n {
        return None;
    }
    if m == 0 {
        assert(v@.subrange(0, 0) =~= pat@);
        return Some(0);
    }
    let mut i: usize = 0;
    while i <= n - m
        invariant
            0 < m <= n,
            n == v@.len(),
            m == pat@.len(),
            i <= n - m + 1,
            find(v@, pat@) == find_from(v@, pat@, i as int),
        decreases n - m + 1 - i,
    {
        if matches_at(v, pat, i) {
            return Some(i);
        }
        i = i + 1;
    }
    None
}

/// Whether `pat` occurs anywhere in `v`.
pub fn contains_pattern(v: &Vec<char>, pat: &Vec<char>) -> (r: bool)
    ensures
        r == contains(v@, pat@),
{
    let n = v.len();
    let m = pat.len();
    if m > n {
        return false;
    }
    if m == 0 {
        assert(v@.subrange(0, 0 + pat@.len() as int) =~= pat@);
        return true;
    }
    let mut i: usize = 0;
    while i <= n - m
        invariant
            0 < m <= n,
            n == v@.len(),
            m == pat@.len(),
            i <= n - m + 1,
            forall|k: int| 0 <= k < i ==> #[trigger] v@.subrange(k, k + m) != pat@,
        decreases n - m + 1 - i,
    {
        if matches_at(v, pat, i) {
            return true;
        }
        i = i + 1;
    }
    proof {
        assert forall|k: int| 0 <= k && k + m <= n implies #[trigger] v@.subrange(k, k + m) != pat@ by {}
    }
    false
}

/// Last index of `c` in `v`, as `rfind_char` defines it.
pub fn rfind_char_in(v: &Vec<char>, c: char) -> (r: Option<usize>)
    ensures
        r matches Some(i) ==> rfind_char(v@, c) == Some(i as int),
        r is None ==> rfind_char(v@, c) is None,
{
    let mut k = v.len();
    while k > 0
        invariant
            k <= v@.len(),
            rfind_char(v@, c) == rfind_char_upto(v@, c, k as int),
        decreases k,
    {
        if v[k - 1] == c {
            return Some(k - 1);
        }
        k = k - 1;
    }
    None
}

} // verus!
