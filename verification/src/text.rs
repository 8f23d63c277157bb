//! Text utilities over sequences of `char`, with the specifications that
//! the rest of the library states its contracts in.

use vstd::prelude::*;
use vstd::std_specs::iter::IteratorSpec;

verus! {

/// Unicode `White_Space`, the property that `char::is_whitespace` tests.
pub open spec fn is_ws(c: char) -> bool {
    ||| c == ' '
    ||| ('\t' <= c && c <= '\r')
    ||| c == '\u{85}'
    ||| c == '\u{a0}'
    ||| c == '\u{1680}'
    ||| ('\u{2000}' <= c && c <= '\u{200a}')
    ||| c == '\u{2028}'
    ||| c == '\u{2029}'
    ||| c == '\u{202f}'
    ||| c == '\u{205f}'
    ||| c == '\u{3000}'
}

/// Whether `c` is Unicode white space.
pub fn is_whitespace(c: char) -> (b: bool)
    ensures
        b == is_ws(c),
{
    c == ' ' || ('\t' <= c && c <= '\r') || c == '\u{85}' || c == '\u{a0}' || c == '\u{1680}'
        || ('\u{2000}' <= c && c <= '\u{200a}') || c == '\u{2028}' || c == '\u{2029}'
        || c == '\u{202f}' || c == '\u{205f}' || c == '\u{3000}'
}

/// The characters of `s`, in order.
pub fn chars_of(s: &str) -> (v: Vec<char>)
    ensures
        v@ == s@,
{
    broadcast use vstd::string::group_string_axioms;

    let mut v: Vec<char> = Vec::new();
    let mut it = s.chars();
    loop
        invariant
            it.obeys_prophetic_iter_laws(),
            it.decrease() is Some,
            v@ + it.remaining() == s@,
        decreases it.decrease()->0,
    {
        match it.next() {
            Some(c) => {
                v.push(c);
            },
            None => {
                return v;
            },
        }
    }
}


/// Appends one character to a string (`String::push`).
#[verifier::external_body]
pub(crate) fn push_char(s: &mut String, c: char)
    ensures
        final(s)@ == old(s)@.push(c),
{
    s.push(c);
}

/// The string made of the characters `v[from..to]`.
pub fn string_of_range(v: &[char], from: usize, to: usize) -> (s: String)
    requires
        from <= to <= v@.len(),
    ensures
        s@ == v@.subrange(from as int, to as int),
{
    let mut s = String::new();
    let mut i = from;
    while i < to
        invariant
            from <= i <= to <= v@.len(),
            s@ == v@.subrange(from as int, i as int),
        decreases to - i,
    {
        push_char(&mut s, v[i]);
        i = i + 1;
        assert(s@ =~= v@.subrange(from as int, i as int));
    }
    s
}

/// The string made of all the characters of `v`.
pub fn string_of(v: &[char]) -> (s: String)
    ensures
        s@ == v@,
{
    let s = string_of_range(v, 0, v.len());
    assert(v@.subrange(0, v@.len() as int) =~= v@);
    s
}

/// The characters `v[from..to]`, copied.
pub fn copy_range(v: &[char], from: usize, to: usize) -> (r: Vec<char>)
    requires
        from <= to <= v@.len(),
    ensures
        r@ == v@.subrange(from as int, to as int),
{
    let mut r: Vec<char> = Vec::new();
    let mut i = from;
    while i < to
        invariant
            from <= i <= to <= v@.len(),
            r@ == v@.subrange(from as int, i as int),
        decreases to - i,
    {
        r.push(v[i]);
        i = i + 1;
        assert(r@ =~= v@.subrange(from as int, i as int));
    }
    r
}

/// Appends the characters of `t` to `s`.
pub fn append_chars(s: &mut String, t: &[char])
    ensures
        final(s)@ == old(s)@ + t@,
{
    let mut i: usize = 0;
    while i < t.len()
        invariant
            i <= t@.len(),
            s@ == old(s)@ + t@.subrange(0, i as int),
        decreases t@.len() - i,
    {
        push_char(s, t[i]);
        i = i + 1;
        assert(s@ =~= old(s)@ + t@.subrange(0, i as int));
    }
    assert(t@.subrange(0, t@.len() as int) =~= t@);
}

/// Appends the characters of `t` to `s`.
pub fn append_str(s: &mut String, t: &str)
    ensures
        final(s)@ == old(s)@ + t@,
{
    let v = chars_of(t);
    append_chars(s, v.as_slice());
}

// ---------------------------------------------------------------------
// Whitespace trimming

/// The first index at or after `i` that does not hold white space
/// (`s.len()` when there is none).
pub open spec fn skip_ws(s: Seq<char>, i: int) -> int
    decreases s.len() - i,
{
    if i < 0 || i >= s.len() || !is_ws(s[i]) {
        i
    } else {
        skip_ws(s, i + 1)
    }
}

/// The end of `s.subrange(0, j)` once trailing white space is removed.
pub open spec fn back_ws(s: Seq<char>, j: int) -> int
    decreases j,
{
    if j <= 0 || j > s.len() || !is_ws(s[j - 1]) {
        j
    } else {
        back_ws(s, j - 1)
    }
}

/// `s` without leading white space (`str::trim_start`).
pub open spec fn trim_start(s: Seq<char>) -> Seq<char> {
    s.subrange(skip_ws(s, 0), s.len() as int)
}

/// `s` without trailing white space (`str::trim_end`).
pub open spec fn trim_end(s: Seq<char>) -> Seq<char> {
    s.subrange(0, back_ws(s, s.len() as int))
}

/// `s` without leading and trailing white space (`str::trim`).
pub open spec fn trim(s: Seq<char>) -> Seq<char> {
    trim_end(trim_start(s))
}

pub proof fn lemma_skip_ws_bounds(s: Seq<char>, i: int)
    requires
        0 <= i <= s.len(),
    ensures
        i <= skip_ws(s, i) <= s.len(),
        forall|k: int| i <= k < skip_ws(s, i) ==> is_ws(#[trigger] s[k]),
        skip_ws(s, i) < s.len() ==> !is_ws(s[skip_ws(s, i)]),
    decreases s.len() - i,
{
    if i < s.len() && is_ws(s[i]) {
        lemma_skip_ws_bounds(s, i + 1);
    }
}

pub proof fn lemma_back_ws_bounds(s: Seq<char>, j: int)
    requires
        0 <= j <= s.len(),
    ensures
        0 <= back_ws(s, j) <= j,
        forall|k: int| back_ws(s, j) <= k < j ==> is_ws(#[trigger] s[k]),
        back_ws(s, j) > 0 ==> !is_ws(s[back_ws(s, j) - 1]),
    decreases j,
{
    if j > 0 && is_ws(s[j - 1]) {
        lemma_back_ws_bounds(s, j - 1);
    }
}

/// The index of the first character of `s` from `i` on that is not white space.
pub fn skip_whitespace(s: &[char], i: usize) -> (r: usize)
    requires
        i <= s@.len(),
    ensures
        r == skip_ws(s@, i as int),
        i <= r <= s@.len(),
{
    let mut k = i;
    while k < s.len() && is_whitespace(s[k])
        invariant
            i <= k <= s@.len(),
            skip_ws(s@, k as int) == skip_ws(s@, i as int),
        decreases s@.len() - k,
    {
        k = k + 1;
    }
    k
}

/// The end of `s[..j]` once trailing white space is removed.
pub fn back_whitespace(s: &[char], j: usize) -> (r: usize)
    requires
        j <= s@.len(),
    ensures
        r == back_ws(s@, j as int),
        r <= j,
{
    let mut k = j;
    while k > 0 && is_whitespace(s[k - 1])
        invariant
            k <= j <= s@.len(),
            back_ws(s@, k as int) == back_ws(s@, j as int),
        decreases k,
    {
        k = k - 1;
    }
    k
}

pub proof fn lemma_back_ws_subrange(s: Seq<char>, a: int, j: int)
    requires
        0 <= a <= j <= s.len(),
    ensures
        back_ws(s.subrange(a, s.len() as int), j - a) == if back_ws(s, j) >= a {
            back_ws(s, j) - a
        } else {
            0
        },
    decreases j,
{
    let t = s.subrange(a, s.len() as int);
    if j > a && is_ws(s[j - 1]) {
        assert(t[j - a - 1] == s[j - 1]);
        lemma_back_ws_subrange(s, a, j - 1);
    } else if j > a {
        assert(t[j - a - 1] == s[j - 1]);
    } else {
        lemma_back_ws_bounds(s, j);
    }
}

/// The bounds `(a, b)` of `s` without leading and trailing white space.
pub fn trim_bounds(s: &[char]) -> (r: (usize, usize))
    ensures
        r.0 <= r.1 <= s@.len(),
        s@.subrange(r.0 as int, r.1 as int) == trim(s@),
{
    let a = skip_whitespace(s, 0);
    let b0 = back_whitespace(s, s.len());
    proof {
        lemma_skip_ws_bounds(s@, 0);
        lemma_back_ws_bounds(s@, s@.len() as int);
        lemma_back_ws_subrange(s@, a as int, s@.len() as int);
    }
    let b = if b0 < a { a } else { b0 };
    let ghost t = s@.subrange(a as int, s@.len() as int);
    assert(trim_start(s@) == t);
    assert(trim(s@) =~= s@.subrange(a as int, b as int));
    (a, b)
}

/// `s.trim()`, as characters.
pub fn trim_chars(s: &[char]) -> (r: Vec<char>)
    ensures
        r@ == trim(s@),
{
    let (a, b) = trim_bounds(s);
    copy_range(s, a, b)
}


// ---------------------------------------------------------------------
// Prefixes, suffixes and searching

/// `s` starts with `p`.
pub open spec fn starts_with(s: Seq<char>, p: Seq<char>) -> bool {
    p.len() <= s.len() && s.subrange(0, p.len() as int) == p
}

/// `s` ends with `p`.
pub open spec fn ends_with(s: Seq<char>, p: Seq<char>) -> bool {
    p.len() <= s.len() && s.subrange(s.len() - p.len(), s.len() as int) == p
}

/// `p` occurs in `s` at index `i`.
pub open spec fn occurs_at(s: Seq<char>, p: Seq<char>, i: int) -> bool {
    0 <= i && i + p.len() <= s.len() && s.subrange(i, i + p.len()) == p
}

/// The first index at or after `i` where `p` occurs in `s` (`str::find`).
pub open spec fn find_from(s: Seq<char>, p: Seq<char>, i: int) -> Option<int>
    decreases s.len() + 1 - i,
{
    if i < 0 || i + p.len() > s.len() {
        None
    } else if occurs_at(s, p, i) {
        Some(i)
    } else {
        find_from(s, p, i + 1)
    }
}

/// The first index where `p` occurs in `s`.
pub open spec fn find(s: Seq<char>, p: Seq<char>) -> Option<int> {
    find_from(s, p, 0)
}

/// `p` occurs somewhere in `s` (`str::contains`).
pub open spec fn contains(s: Seq<char>, p: Seq<char>) -> bool {
    find(s, p) is Some
}

/// The first index at or after `i` holding `c`, or `s.len()`.
pub open spec fn next_index(s: Seq<char>, c: char, i: int) -> int
    decreases s.len() - i,
{
    if i < 0 || i >= s.len() || s[i] == c {
        i
    } else {
        next_index(s, c, i + 1)
    }
}

/// The last index below `j` holding `c` (`str::rfind` on a character).
pub open spec fn rfind_below(s: Seq<char>, c: char, j: int) -> Option<int>
    decreases j,
{
    if j <= 0 || j > s.len() {
        None
    } else if s[j - 1] == c {
        Some(j - 1)
    } else {
        rfind_below(s, c, j - 1)
    }
}

/// The last index of `c` in `s`.
pub open spec fn rfind(s: Seq<char>, c: char) -> Option<int> {
    rfind_below(s, c, s.len() as int)
}

/// `s` holds the character `c`.
pub open spec fn has_char(s: Seq<char>, c: char) -> bool {
    next_index(s, c, 0) < s.len()
}

/// `p` occurs in `s` at `i`.
pub fn matches_at(s: &[char], p: &[char], i: usize) -> (b: bool)
    ensures
        b == occurs_at(s@, p@, i as int),
{
    if i > s.len() || p.len() > s.len() - i {
        return false;
    }
    let n = s.len();
    let mut k: usize = 0;
    while k < p.len()
        invariant
            n == s@.len(),
            i + p@.len() <= s@.len(),
            k <= p@.len(),
            forall|m: int| 0 <= m < k ==> s@[i + m] == p@[m],
        decreases p@.len() - k,
    {
        assert(i + k < s@.len());
        if s[i + k] != p[k] {
            assert(s@.subrange(i as int, i + p@.len())[k as int] != p@[k as int]);
            return false;
        }
        k = k + 1;
    }
    assert(s@.subrange(i as int, i + p@.len()) =~= p@);
    true
}

/// `s` starts with `p`.
pub fn has_prefix(s: &[char], p: &[char]) -> (b: bool)
    ensures
        b == starts_with(s@, p@),
{
    matches_at(s, p, 0)
}

/// `s` ends with `p`.
pub fn has_suffix(s: &[char], p: &[char]) -> (b: bool)
    ensures
        b == ends_with(s@, p@),
{
    if p.len() > s.len() {
        false
    } else {
        matches_at(s, p, s.len() - p.len())
    }
}

/// The first index at or after `i` where `p` occurs in `s`.
pub fn find_at(s: &[char], p: &[char], i: usize) -> (r: Option<usize>)
    ensures
        r matches Some(k) ==> find_from(s@, p@, i as int) == Some(k as int),
        r is None ==> find_from(s@, p@, i as int) is None,
{
    let mut k = i;
    while k <= s.len() && p.len() <= s.len() - k
        invariant
            i <= k,
            find_from(s@, p@, k as int) == find_from(s@, p@, i as int),
        decreases s@.len() + 1 - k,
    {
        if matches_at(s, p, k) {
            return Some(k);
        }
        if k == s.len() {
            assert(s@.subrange(k as int, k as int) =~= p@);
        }
        k = k + 1;
    }
    None
}

/// The index of the first `c` in `s` at or after `i`, or `s.len()`.
pub fn next_index_of(s: &[char], c: char, i: usize) -> (r: usize)
    requires
        i <= s@.len(),
    ensures
        r == next_index(s@, c, i as int),
        i <= r <= s@.len(),
{
    let mut k = i;
    while k < s.len() && s[k] != c
        invariant
            i <= k <= s@.len(),
            next_index(s@, c, k as int) == next_index(s@, c, i as int),
        decreases s@.len() - k,
    {
        k = k + 1;
    }
    k
}

pub proof fn lemma_next_index_bounds(s: Seq<char>, c: char, i: int)
    requires
        0 <= i <= s.len(),
    ensures
        i <= next_index(s, c, i) <= s.len(),
        forall|k: int| i <= k < next_index(s, c, i) ==> #[trigger] s[k] != c,
        next_index(s, c, i) < s.len() ==> s[next_index(s, c, i)] == c,
    decreases s.len() - i,
{
    if i < s.len() && s[i] != c {
        lemma_next_index_bounds(s, c, i + 1);
    }
}

/// The last index of `c` in `s`.
pub fn rfind_char(s: &[char], c: char) -> (r: Option<usize>)
    ensures
        r matches Some(k) ==> rfind(s@, c) == Some(k as int) && k < s@.len(),
        r is None ==> rfind(s@, c) is None,
{
    let mut j = s.len();
    while j > 0
        invariant
            j <= s@.len(),
            rfind_below(s@, c, j as int) == rfind(s@, c),
        decreases j,
    {
        if s[j - 1] == c {
            return Some(j - 1);
        }
        j = j - 1;
    }
    None
}

pub proof fn lemma_rfind_below_bounds(s: Seq<char>, c: char, j: int)
    ensures
        rfind_below(s, c, j) matches Some(k) ==> 0 <= k < j && k < s.len() && s[k] == c,
    decreases j,
{
    if 0 < j <= s.len() && s[j - 1] != c {
        lemma_rfind_below_bounds(s, c, j - 1);
    }
}

pub proof fn lemma_rfind_bounds(s: Seq<char>, c: char)
    ensures
        rfind(s, c) matches Some(k) ==> 0 <= k < s.len() && s[k] == c,
{
    lemma_rfind_below_bounds(s, c, s.len() as int);
}

/// `s` holds `c`.
pub fn contains_char(s: &[char], c: char) -> (b: bool)
    ensures
        b == has_char(s@, c),
{
    next_index_of(s, c, 0) < s.len()
}

// ---------------------------------------------------------------------
// Trimming a given character

/// The first index at or after `i` not holding `c`, or `s.len()`.
pub open spec fn skip_char(s: Seq<char>, c: char, i: int) -> int
    decreases s.len() - i,
{
    if i < 0 || i >= s.len() || s[i] != c {
        i
    } else {
        skip_char(s, c, i + 1)
    }
}

/// The end of `s.subrange(0, j)` once trailing `c` are removed.
pub open spec fn back_char(s: Seq<char>, c: char, j: int) -> int
    decreases j,
{
    if j <= 0 || j > s.len() || s[j - 1] != c {
        j
    } else {
        back_char(s, c, j - 1)
    }
}

/// `s.trim_start_matches(c)`.
pub open spec fn trim_start_char(s: Seq<char>, c: char) -> Seq<char> {
    s.subrange(skip_char(s, c, 0), s.len() as int)
}

/// `s.trim_end_matches(c)`.
pub open spec fn trim_end_char(s: Seq<char>, c: char) -> Seq<char> {
    s.subrange(0, back_char(s, c, s.len() as int))
}

/// `s.trim_matches(c)`.
pub open spec fn trim_char(s: Seq<char>, c: char) -> Seq<char> {
    trim_end_char(trim_start_char(s, c), c)
}

pub proof fn lemma_skip_char_bounds(s: Seq<char>, c: char, i: int)
    requires
        0 <= i <= s.len(),
    ensures
        i <= skip_char(s, c, i) <= s.len(),
    decreases s.len() - i,
{
    if i < s.len() && s[i] == c {
        lemma_skip_char_bounds(s, c, i + 1);
    }
}

pub proof fn lemma_back_char_subrange(s: Seq<char>, c: char, a: int, j: int)
    requires
        0 <= a <= j <= s.len(),
    ensures
        a <= back_char(s, c, j) <= j ==> back_char(s.subrange(a, s.len() as int), c, j - a)
            == back_char(s, c, j) - a,
        back_char(s, c, j) < a ==> back_char(s.subrange(a, s.len() as int), c, j - a) == 0,
        0 <= back_char(s, c, j) <= j,
    decreases j,
{
    let t = s.subrange(a, s.len() as int);
    if j > 0 && s[j - 1] == c {
        if j > a {
            assert(t[j - a - 1] == s[j - 1]);
            lemma_back_char_subrange(s, c, a, j - 1);
        } else {
            lemma_back_char_subrange(s, c, 0, j - 1);
        }
    } else if j > a {
        assert(t[j - a - 1] == s[j - 1]);
    }
}

/// The bounds of `s.trim_start_matches(c)`.
pub fn skip_char_from(s: &[char], c: char, i: usize) -> (r: usize)
    requires
        i <= s@.len(),
    ensures
        r == skip_char(s@, c, i as int),
        i <= r <= s@.len(),
{
    let mut k = i;
    while k < s.len() && s[k] == c
        invariant
            i <= k <= s@.len(),
            skip_char(s@, c, k as int) == skip_char(s@, c, i as int),
        decreases s@.len() - k,
    {
        k = k + 1;
    }
    k
}

/// The end of `s[..j]` once trailing `c` are removed.
pub fn back_char_from(s: &[char], c: char, j: usize) -> (r: usize)
    requires
        j <= s@.len(),
    ensures
        r == back_char(s@, c, j as int),
        r <= j,
{
    let mut k = j;
    while k > 0 && s[k - 1] == c
        invariant
            k <= j <= s@.len(),
            back_char(s@, c, k as int) == back_char(s@, c, j as int),
        decreases k,
    {
        k = k - 1;
    }
    k
}

/// `s.trim_start_matches(c)`, as characters.
pub fn trim_start_matches(s: &[char], c: char) -> (r: Vec<char>)
    ensures
        r@ == trim_start_char(s@, c),
{
    let a = skip_char_from(s, c, 0);
    copy_range(s, a, s.len())
}

/// `s.trim_matches(c)`, as characters.
pub fn trim_matches(s: &[char], c: char) -> (r: Vec<char>)
    ensures
        r@ == trim_char(s@, c),
{
    let a = skip_char_from(s, c, 0);
    let b0 = back_char_from(s, c, s.len());
    proof {
        lemma_back_char_subrange(s@, c, a as int, s@.len() as int);
    }
    let b = if b0 < a { a } else { b0 };
    assert(trim_char(s@, c) =~= s@.subrange(a as int, b as int));
    copy_range(s, a, b)
}

// ---------------------------------------------------------------------
// Splitting

/// The views of a sequence of character vectors.
pub open spec fn views(v: Seq<Vec<char>>) -> Seq<Seq<char>> {
    v.map_values(|x: Vec<char>| x@)
}

/// The pieces of `s.subrange(i, s.len())` between occurrences of `sep`
/// (`str::split` with a character): always at least one piece.
pub open spec fn split_from(s: Seq<char>, sep: char, i: int) -> Seq<Seq<char>>
    decreases s.len() - i,
{
    if i < 0 || i > s.len() {
        Seq::empty()
    } else if next_index(s, sep, i) < s.len() {
        proof {
            lemma_next_index_bounds(s, sep, i);
        }
        seq![s.subrange(i, next_index(s, sep, i))] + split_from(s, sep, next_index(s, sep, i) + 1)
    } else {
        seq![s.subrange(i, s.len() as int)]
    }
}

/// `s.split(sep)`.
pub open spec fn split(s: Seq<char>, sep: char) -> Seq<Seq<char>> {
    split_from(s, sep, 0)
}

/// `x` without one trailing carriage return.
pub open spec fn strip_cr(x: Seq<char>) -> Seq<char> {
    if x.len() > 0 && x[x.len() - 1] == '\r' {
        x.drop_last()
    } else {
        x
    }
}

/// The lines of `s.subrange(i, s.len())` (`str::lines`): pieces ended by a
/// line feed, with a carriage return before it removed; the last line
/// ending is optional.
pub open spec fn lines_from(s: Seq<char>, i: int) -> Seq<Seq<char>>
    decreases s.len() - i,
{
    if i < 0 || i >= s.len() {
        Seq::empty()
    } else if next_index(s, '\n', i) < s.len() {
        proof {
            lemma_next_index_bounds(s, '\n', i);
        }
        seq![strip_cr(s.subrange(i, next_index(s, '\n', i)))] + lines_from(
            s,
            next_index(s, '\n', i) + 1,
        )
    } else {
        seq![s.subrange(i, s.len() as int)]
    }
}

/// `s.lines()`.
pub open spec fn lines(s: Seq<char>) -> Seq<Seq<char>> {
    lines_from(s, 0)
}

/// `s.split(sep)`, as character vectors.
pub fn split_chars(s: &[char], sep: char) -> (r: Vec<Vec<char>>)
    ensures
        views(r@) == split(s@, sep),
{
    let mut out: Vec<Vec<char>> = Vec::new();
    let mut i: usize = 0;
    loop
        invariant
            i <= s@.len(),
            split(s@, sep) == views(out@) + split_from(s@, sep, i as int),
        decreases s@.len() - i,
    {
        let j = next_index_of(s, sep, i);
        let piece = copy_range(s, i, j);
        let ghost before = out@;
        out.push(piece);
        assert(views(out@) =~= views(before).push(piece@));
        if j < s.len() {
            assert(split_from(s@, sep, i as int) == seq![s@.subrange(i as int, j as int)]
                + split_from(s@, sep, j + 1));
            assert(views(before) + split_from(s@, sep, i as int) =~= views(out@)
                + split_from(s@, sep, j + 1));
            i = j + 1;
        } else {
            assert(split_from(s@, sep, i as int) == seq![s@.subrange(i as int, s@.len() as int)]);
            assert(views(before) + split_from(s@, sep, i as int) =~= views(out@));
            return out;
        }
    }
}

/// `s.lines()`, as character vectors.
pub fn lines_of(s: &[char]) -> (r: Vec<Vec<char>>)
    ensures
        views(r@) == lines(s@),
{
    let mut out: Vec<Vec<char>> = Vec::new();
    let mut i: usize = 0;
    while i < s.len()
        invariant
            i <= s@.len(),
            lines(s@) == views(out@) + lines_from(s@, i as int),
        decreases s@.len() - i,
    {
        let j = next_index_of(s, '\n', i);
        let ghost before = out@;
        if j < s.len() {
            let e = if j > i && s[j - 1] == '\r' { j - 1 } else { j };
            let piece = copy_range(s, i, e);
            assert(piece@ =~= strip_cr(s@.subrange(i as int, j as int)));
            out.push(piece);
            assert(views(out@) =~= views(before).push(piece@));
            assert(views(before) + lines_from(s@, i as int) =~= views(out@) + lines_from(
                s@,
                j + 1,
            ));
            i = j + 1;
        } else {
            let piece = copy_range(s, i, j);
            out.push(piece);
            assert(views(out@) =~= views(before).push(piece@));
            assert(views(before) + lines_from(s@, i as int) =~= views(out@) + lines_from(
                s@,
                s@.len() as int,
            ));
            i = j;
        }
    }
    assert(views(out@) + lines_from(s@, i as int) =~= views(out@));
    out
}

/// The white-space separated words of `s.subrange(i, s.len())`
/// (`str::split_whitespace`).
pub open spec fn words_from(s: Seq<char>, i: int) -> Seq<Seq<char>>
    decreases s.len() - i,
{
    if i < 0 || skip_ws(s, i) >= s.len() {
        Seq::empty()
    } else {
        proof {
            lemma_skip_ws_bounds(s, i);
            lemma_next_ws_bounds(s, skip_ws(s, i));
        }
        seq![s.subrange(skip_ws(s, i), next_ws(s, skip_ws(s, i)))] + words_from(
            s,
            next_ws(s, skip_ws(s, i)),
        )
    }
}

/// The first index at or after `i` holding white space, or `s.len()`.
pub open spec fn next_ws(s: Seq<char>, i: int) -> int
    decreases s.len() - i,
{
    if i < 0 || i >= s.len() || is_ws(s[i]) {
        i
    } else {
        next_ws(s, i + 1)
    }
}

/// `s.split_whitespace()`.
pub open spec fn words(s: Seq<char>) -> Seq<Seq<char>> {
    words_from(s, 0)
}

pub proof fn lemma_next_ws_bounds(s: Seq<char>, i: int)
    requires
        0 <= i <= s.len(),
    ensures
        i <= next_ws(s, i) <= s.len(),
        i < s.len() && !is_ws(s[i]) ==> i < next_ws(s, i),
    decreases s.len() - i,
{
    if i < s.len() && !is_ws(s[i]) {
        lemma_next_ws_bounds(s, i + 1);
    }
}

/// `s.split_whitespace()`, as character vectors.
pub fn words_of(s: &[char]) -> (r: Vec<Vec<char>>)
    ensures
        views(r@) == words(s@),
{
    let mut out: Vec<Vec<char>> = Vec::new();
    let mut i: usize = 0;
    loop
        invariant
            i <= s@.len(),
            words(s@) == views(out@) + words_from(s@, i as int),
        decreases s@.len() - i,
    {
        let a = skip_whitespace(s, i);
        proof {
            lemma_skip_ws_bounds(s@, i as int);
        }
        if a >= s.len() {
            assert(views(out@) + words_from(s@, i as int) =~= views(out@));
            return out;
        }
        let mut b = a;
        while b < s.len() && !is_whitespace(s[b])
            invariant
                a <= b <= s@.len(),
                next_ws(s@, b as int) == next_ws(s@, a as int),
            decreases s@.len() - b,
        {
            b = b + 1;
        }
        proof {
            lemma_next_ws_bounds(s@, a as int);
        }
        let piece = copy_range(s, a, b);
        let ghost before = out@;
        out.push(piece);
        assert(views(out@) =~= views(before).push(piece@));
        assert(views(before) + words_from(s@, i as int) =~= views(out@) + words_from(
            s@,
            b as int,
        ));
        i = b;
    }
}


/// Whether the two texts are equal.
pub fn str_equals(a: &str, b: &str) -> (r: bool)
    ensures
        r == (a@ == b@),
{
    let x = chars_of(a);
    let y = chars_of(b);
    if x.len() != y.len() {
        return false;
    }
    let r = matches_at(x.as_slice(), y.as_slice(), 0);
    assert(r ==> x@.subrange(0, y@.len() as int) =~= x@);
    assert(x@ == y@ ==> x@.subrange(0, y@.len() as int) =~= y@);
    r
}

/// The number of times `c` occurs in `s`.
pub open spec fn count_char(s: Seq<char>, c: char) -> nat
    decreases s.len(),
{
    if s.len() == 0 {
        0
    } else {
        count_char(s.drop_last(), c) + if s.last() == c {
            1nat
        } else {
            0nat
        }
    }
}

/// The number of times `c` occurs in `s`.
pub fn count_occurrences(s: &[char], c: char) -> (n: usize)
    ensures
        n == count_char(s@, c),
{
    let mut n: usize = 0;
    let mut i: usize = 0;
    while i < s.len()
        invariant
            i <= s@.len(),
            n == count_char(s@.subrange(0, i as int), c),
            n <= i,
        decreases s@.len() - i,
    {
        assert(s@.subrange(0, i + 1).drop_last() =~= s@.subrange(0, i as int));
        if s[i] == c {
            n = n + 1;
        }
        i = i + 1;
    }
    assert(s@.subrange(0, s@.len() as int) =~= s@);
    n
}

/// What `str::to_lowercase` gives for a text.
pub uninterp spec fn lowercase_of(s: Seq<char>) -> Seq<char>;

/// `str::to_lowercase`: the text with each character replaced by its
/// lowercase mapping, which for some characters is more than one
/// character. The mapping itself is not stated here.
#[verifier::external_body]
pub(crate) fn to_lowercase(s: &str) -> (r: String)
    ensures
        r@ == lowercase_of(s@),
{
    s.to_lowercase()
}

} // verus!
