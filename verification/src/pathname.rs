//! File paths as text, with the Unix conventions of `std::path`: components
//! are separated by `/`, and a path starting with `/` is absolute.

use vstd::prelude::*;
use crate::text::back_char;
use crate::text::{
    append_chars, back_char_from, chars_of, copy_range, rfind, rfind_char, split,
    split_chars, string_of, views,
};

verus! {

/// `p` is absolute: it starts at the root.
pub open spec fn is_absolute_spec(p: Seq<char>) -> bool {
    p.len() > 0 && p[0] == '/'
}

/// `base` joined with `p` (`Path::join`): `p` itself when it is absolute or
/// `base` is empty, else `base`, a separator unless `base` already ends with
/// one, and `p`.
pub open spec fn join_spec(base: Seq<char>, p: Seq<char>) -> Seq<char> {
    if is_absolute_spec(p) || base.len() == 0 {
        p
    } else if base[base.len() - 1] == '/' {
        base + p
    } else {
        base + seq!['/'] + p
    }
}

/// Where the first `j` characters of `p` end once trailing separators and
/// trailing `.` components (which `std::path` does not count) are removed.
pub open spec fn strip_end_at(p: Seq<char>, j: int) -> int
    decreases j,
{
    let e = back_char(p, '/', j);
    if 2 <= e <= j && e <= p.len() && p[e - 1] == '.' && p[e - 2] == '/' {
        strip_end_at(p, e - 1)
    } else {
        e
    }
}

/// `p` without its trailing separators and trailing `.` components.
pub open spec fn stripped(p: Seq<char>) -> Seq<char> {
    p.subrange(0, strip_end_at(p, p.len() as int))
}

/// The last component of `p` once trailing separators and `.` components
/// are removed, unless it is empty, `.` or `..` (`Path::file_name`).
pub open spec fn file_name_spec(p: Seq<char>) -> Option<Seq<char>> {
    let t = stripped(p);
    let name = match rfind(t, '/') {
        Some(k) => t.subrange(k + 1, t.len() as int),
        None => t,
    };
    if name.len() == 0 || name == seq!['.'] || name == seq!['.', '.'] {
        None
    } else {
        Some(name)
    }
}

/// The index of the dot that starts the extension of a file name: the last
/// dot, unless it is the first character.
pub open spec fn extension_dot(name: Seq<char>) -> Option<int> {
    match rfind(name, '.') {
        Some(k) => if k > 0 {
            Some(k)
        } else {
            None
        },
        None => None,
    }
}

/// The extension of `p`'s file name, after its last dot (`Path::extension`).
pub open spec fn extension_spec(p: Seq<char>) -> Option<Seq<char>> {
    match file_name_spec(p) {
        Some(name) => match extension_dot(name) {
            Some(k) => Some(name.subrange(k + 1, name.len() as int)),
            None => None,
        },
        None => None,
    }
}

/// `p`'s file name without its extension (`Path::file_stem`).
pub open spec fn file_stem_spec(p: Seq<char>) -> Option<Seq<char>> {
    match file_name_spec(p) {
        Some(name) => match extension_dot(name) {
            Some(k) => Some(name.subrange(0, k)),
            None => Some(name),
        },
        None => None,
    }
}

/// `p` with its extension replaced by `ext` (`Path::with_extension`): the
/// path up to the end of its file stem, then a dot and `ext` unless `ext` is
/// empty; `p` unchanged when it has no file name.
pub open spec fn with_extension_spec(p: Seq<char>, ext: Seq<char>) -> Seq<char> {
    match file_stem_spec(p) {
        Some(stem) => {
            let t = stripped(p);
            let start = match rfind(t, '/') {
                Some(k) => k + 1,
                None => 0,
            };
            let kept = t.subrange(0, start + stem.len());
            if ext.len() == 0 {
                kept
            } else {
                kept + seq!['.'] + ext
            }
        },
        None => p,
    }
}

/// The directory that holds `p` (`Path::parent`): `None` for a path that is
/// empty or only separators, the empty path for a single relative
/// component, the root for a single absolute one.
pub open spec fn parent_spec(p: Seq<char>) -> Option<Seq<char>> {
    let t = stripped(p);
    if t.len() == 0 {
        None
    } else {
        match rfind(t, '/') {
            Some(k) => if k == 0 {
                Some(seq!['/'])
            } else {
                Some(t.subrange(0, k))
            },
            None => Some(Seq::empty()),
        }
    }
}

/// Whether `p` is absolute.
pub fn is_absolute(p: &str) -> (b: bool)
    ensures
        b == is_absolute_spec(p@),
{
    let c = chars_of(p);
    c.len() > 0 && c[0] == '/'
}

/// `base` joined with `p`.
pub fn join(base: &str, p: &str) -> (r: String)
    ensures
        r@ == join_spec(base@, p@),
{
    let b = chars_of(base);
    if is_absolute(p) || b.len() == 0 {
        return String::from_str(p);
    }
    let mut r = String::from_str(base);
    if b[b.len() - 1] != '/' {
        crate::text::push_char(&mut r, '/');
    }
    crate::text::append_str(&mut r, p);
    assert(r@ =~= join_spec(base@, p@));
    r
}

/// Where `p` ends once trailing separators and `.` components are removed.
fn stripped_end(p: &[char]) -> (r: usize)
    ensures
        r == strip_end_at(p@, p@.len() as int),
        r <= p@.len(),
        stripped(p@) == p@.subrange(0, r as int),
{
    let mut j = p.len();
    loop
        invariant
            j <= p@.len(),
            strip_end_at(p@, j as int) == strip_end_at(p@, p@.len() as int),
        decreases j,
    {
        let e = back_char_from(p, '/', j);
        if e >= 2 && p[e - 1] == '.' && p[e - 2] == '/' {
            j = e - 1;
        } else {
            return e;
        }
    }
}

/// The bounds of the file name of `p` within `p`.
fn file_name_bounds(p: &[char]) -> (r: (usize, usize))
    ensures
        r.0 <= r.1 <= p@.len(),
        ({
            let t = stripped(p@);
            &&& r.1 == t.len()
            &&& t == p@.subrange(0, r.1 as int)
            &&& t.subrange(r.0 as int, r.1 as int) == match rfind(t, '/') {
                Some(k) => t.subrange(k + 1, t.len() as int),
                None => t,
            }
            &&& r.0 == match rfind(t, '/') {
                Some(k) => k + 1,
                None => 0,
            }
        }),
{
    let end = stripped_end(p);
    let t = copy_range(p, 0, end);
    assert(t@ == stripped(p@));
    match rfind_char(t.as_slice(), '/') {
        Some(k) => (k + 1, end),
        None => {
            assert(t@.subrange(0, end as int) =~= t@);
            (0, end)
        },
    }
}

/// The file name of `p`.
pub fn file_name(p: &str) -> (r: Option<String>)
    ensures
        r matches Some(s) ==> file_name_spec(p@) == Some(s@),
        r is None ==> file_name_spec(p@) is None,
{
    let c = chars_of(p);
    let (a, b) = file_name_bounds(c.as_slice());
    let name = copy_range(c.as_slice(), a, b);
    let ghost t = stripped(c@);
    assert(name@ == t.subrange(a as int, b as int)) by {
        assert(t =~= c@.subrange(0, b as int));
    }
    if name.len() == 0 || (name.len() == 1 && name[0] == '.') || (name.len() == 2 && name[0] == '.'
        && name[1] == '.') {
        assert(name.len() == 1 ==> name@ =~= seq![name@[0]]);
        assert(name.len() == 2 ==> name@ =~= seq![name@[0], name@[1]]);
        None
    } else {
        Some(string_of(name.as_slice()))
    }
}


/// The index of the dot that starts the extension of `name`.
fn extension_dot_of(name: &[char]) -> (r: Option<usize>)
    ensures
        r matches Some(k) ==> extension_dot(name@) == Some(k as int) && 0 < k < name@.len(),
        r is None ==> extension_dot(name@) is None,
{
    match rfind_char(name, '.') {
        Some(k) => if k > 0 {
            Some(k)
        } else {
            None
        },
        None => None,
    }
}

/// Whether `p` has an extension.
pub fn has_extension(p: &str) -> (b: bool)
    ensures
        b == extension_spec(p@) is Some,
{
    match file_name(p) {
        Some(name) => {
            let n = chars_of(name.as_str());
            extension_dot_of(n.as_slice()).is_some()
        },
        None => false,
    }
}

/// The extension of `p`.
pub fn extension(p: &str) -> (r: Option<String>)
    ensures
        r matches Some(s) ==> extension_spec(p@) == Some(s@),
        r is None ==> extension_spec(p@) is None,
{
    match file_name(p) {
        Some(name) => {
            let n = chars_of(name.as_str());
            match extension_dot_of(n.as_slice()) {
                Some(k) => {
                    let len = n.len();
                    Some(string_of(copy_range(n.as_slice(), k + 1, len).as_slice()))
                },
                None => None,
            }
        },
        None => None,
    }
}

/// The file stem of `p`.
pub fn file_stem(p: &str) -> (r: Option<String>)
    ensures
        r matches Some(s) ==> file_stem_spec(p@) == Some(s@),
        r is None ==> file_stem_spec(p@) is None,
{
    match file_name(p) {
        Some(name) => {
            let n = chars_of(name.as_str());
            match extension_dot_of(n.as_slice()) {
                Some(k) => Some(string_of(copy_range(n.as_slice(), 0, k).as_slice())),
                None => Some(name),
            }
        },
        None => None,
    }
}

/// `p` with its extension replaced by `ext`.
pub fn with_extension(p: &str, ext: &str) -> (r: String)
    ensures
        r@ == with_extension_spec(p@, ext@),
{
    let stem = match file_stem(p) {
        Some(s) => s,
        None => {
            return String::from_str(p);
        },
    };
    let c = chars_of(p);
    let (a, b) = file_name_bounds(c.as_slice());
    let sc = chars_of(stem.as_str());
    let ghost t = stripped(c@);
    proof {
        assert(t =~= c@.subrange(0, b as int));
    }
    assert(a + sc@.len() <= b) by {
        let name = t.subrange(a as int, b as int);
        crate::text::lemma_rfind_bounds(t, '/');
        assert(file_name_spec(p@) == Some(name));
        crate::text::lemma_rfind_bounds(name, '.');
    }
    let kept = copy_range(c.as_slice(), 0, a + sc.len());
    let mut r = string_of(kept.as_slice());
    let e = chars_of(ext);
    if e.len() > 0 {
        crate::text::push_char(&mut r, '.');
        crate::text::append_chars(&mut r, e.as_slice());
    }
    assert(kept@ =~= t.subrange(0, a + sc@.len()));
    assert(r@ =~= with_extension_spec(p@, ext@));
    r
}

/// The directory that holds `p`.
pub fn parent(p: &str) -> (r: Option<String>)
    ensures
        r matches Some(s) ==> parent_spec(p@) == Some(s@),
        r is None ==> parent_spec(p@) is None,
{
    let c = chars_of(p);
    let end = stripped_end(c.as_slice());
    let t = copy_range(c.as_slice(), 0, end);
    assert(t@ == stripped(p@));
    if t.len() == 0 {
        return None;
    }
    match rfind_char(t.as_slice(), '/') {
        Some(k) => if k == 0 {
            let mut r = String::new();
            crate::text::push_char(&mut r, '/');
            assert(r@ =~= seq!['/']);
            Some(r)
        } else {
            Some(string_of(copy_range(t.as_slice(), 0, k).as_slice()))
        },
        None => {
            let r = String::new();
            assert(r@ =~= Seq::<char>::empty());
            Some(r)
        },
    }
}

/// The pieces of a path between separators that name something: neither
/// empty nor `.`.
pub open spec fn normal_parts(ps: Seq<Seq<char>>) -> Seq<Seq<char>>
    decreases ps.len(),
{
    if ps.len() == 0 {
        Seq::empty()
    } else if ps.last().len() == 0 || ps.last() == "."@ {
        normal_parts(ps.drop_last())
    } else {
        normal_parts(ps.drop_last()).push(ps.last())
    }
}

/// The components of `p` (`Path::components`): the root for an absolute
/// path, or `.` for a relative one that starts with it, then each piece
/// between separators other than empty pieces and `.`. Two paths are the
/// same path when their components are equal.
pub open spec fn components(p: Seq<char>) -> Seq<Seq<char>> {
    let parts = split(p, '/');
    let lead = if is_absolute_spec(p) {
        seq!["/"@]
    } else if parts.len() > 0 && parts[0] == "."@ {
        seq!["."@]
    } else {
        Seq::empty()
    };
    lead + normal_parts(parts)
}

/// The components of `p`.
pub fn path_components(p: &str) -> (r: Vec<Vec<char>>)
    ensures
        views(r@) == components(p@),
{
    let c = chars_of(p);
    let parts = split_chars(c.as_slice(), '/');
    let ghost pv = views(parts@);
    let mut r: Vec<Vec<char>> = Vec::new();
    let dot = chars_of(".");
    proof {
        reveal_strlit(".");
        reveal_strlit("/");
    }
    if is_absolute(p) {
        r.push(chars_of("/"));
    } else if parts.len() > 0 && parts[0].len() == 1 && parts[0][0] == '.' {
        assert(parts@[0]@ =~= "."@);
        r.push(dot);
    } else {
        proof {
            if parts@.len() > 0 && pv[0] == "."@ {
                assert(parts@[0]@.len() == 1 && parts@[0]@[0] == '.');
            }
        }
    }
    let ghost lead = views(r@);
    let mut i: usize = 0;
    assert(views(r@) =~= lead + normal_parts(pv.subrange(0, 0)));
    while i < parts.len()
        invariant
            i <= parts@.len(),
            pv == views(parts@),
            views(r@) == lead + normal_parts(pv.subrange(0, i as int)),
        decreases parts@.len() - i,
    {
        let part = &parts[i];
        let ghost sub = pv.subrange(0, i + 1);
        assert(sub.drop_last() =~= pv.subrange(0, i as int));
        assert(sub.last() == part@);
        proof {
            reveal_strlit(".");
        }
        let is_dot = part.len() == 1 && part[0] == '.';
        assert(is_dot == (part@ == "."@)) by {
            if part@ == "."@ {
                assert(part@.len() == 1 && part@[0] == '.');
            }
            if is_dot {
                assert(part@ =~= "."@);
            }
        }
        if part.len() > 0 && !is_dot {
            let ghost before = views(r@);
            r.push(copy_range(part.as_slice(), 0, part.len()));
            assert(part@.subrange(0, part@.len() as int) =~= part@);
            assert(views(r@) =~= before.push(part@));
        }
        i = i + 1;
    }
    assert(pv.subrange(0, pv.len() as int) =~= pv);
    r
}

/// Whether `a` and `b` name the same path: their components are equal.
pub fn same_path(a: &str, b: &str) -> (r: bool)
    ensures
        r == (components(a@) == components(b@)),
{
    let x = path_components(a);
    let y = path_components(b);
    if x.len() != y.len() {
        assert(views(x@).len() != views(y@).len());
        return false;
    }
    let mut i: usize = 0;
    while i < x.len()
        invariant
            i <= x@.len(),
            x@.len() == y@.len(),
            views(x@) == components(a@),
            views(y@) == components(b@),
            forall|j: int| 0 <= j < i ==> #[trigger] x@[j]@ == y@[j]@,
        decreases x@.len() - i,
    {
        if !crate::text::str_equals(string_of(x[i].as_slice()).as_str(), string_of(y[i].as_slice()).as_str()) {
            assert(views(x@)[i as int] != views(y@)[i as int]);
            assert(views(x@) != views(y@)) by {
                if views(x@) == views(y@) {
                    assert(views(x@)[i as int] == views(y@)[i as int]);
                }
            }
            return false;
        }
        i = i + 1;
    }
    assert(views(x@) =~= views(y@));
    true
}

} // verus!
