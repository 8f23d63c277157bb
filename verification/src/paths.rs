//! Resolution of the files named by `load`, `batch` and `import`: search
//! templates reported by Maxima, maxpack packages, and the order in which
//! candidate files are tried.

use vstd::prelude::*;
use crate::docs::{clone_strings, string_views};
use crate::name_map::NameMap;
use crate::pathname::{
    extension, extension_spec, file_name, file_name_spec, file_stem, file_stem_spec,
    has_extension, is_absolute, is_absolute_spec, join, join_spec, with_extension,
    with_extension_spec,
};
use crate::text::{
    append_chars, append_str, chars_of, contains, copy_range, find, find_at, find_from, has_char,
    has_prefix, next_index, next_index_of, rfind, rfind_char, split, split_chars, starts_with,
    string_of, trim, trim_chars, trim_start_char, trim_start_matches, views,
};

verus! {

/// What a search template says.
#[verifier::ext_equal]
pub struct SearchTemplateView {
    pub root: Seq<char>,
    pub recursive: bool,
    pub extensions: Seq<Seq<char>>,
}

/// A directory that Maxima searches for files with the given extensions,
/// and whether it searches its subdirectories too.
pub struct SearchTemplate {
    pub root: String,
    pub recursive: bool,
    pub extensions: Vec<String>,
}

impl View for SearchTemplate {
    type V = SearchTemplateView;

    open spec fn view(&self) -> SearchTemplateView {
        SearchTemplateView {
            root: self.root@,
            recursive: self.recursive,
            extensions: string_views(self.extensions@),
        }
    }
}

impl SearchTemplate {
    /// A copy of this template.
    pub fn duplicate(&self) -> (t: SearchTemplate)
        ensures
            t@ == self@,
    {
        SearchTemplate {
            root: self.root.clone(),
            recursive: self.recursive,
            extensions: clone_strings(&self.extensions),
        }
    }
}

/// The extensions used when a pattern names none.
pub open spec fn default_extensions() -> Seq<Seq<char>> {
    seq![".mac"@, ".lisp"@, ".max"@]
}

/// The extensions listed in braces: each piece between commas, trimmed and
/// without leading `*` and `.`, with a dot put in front; empty pieces are
/// dropped.
pub open spec fn brace_parts(ps: Seq<Seq<char>>) -> Seq<Seq<char>>
    decreases ps.len(),
{
    if ps.len() == 0 {
        Seq::empty()
    } else {
        let t = trim_start_char(trim_start_char(trim(ps.last()), '*'), '.');
        if t.len() > 0 {
            brace_parts(ps.drop_last()).push(seq!['.'] + t)
        } else {
            brace_parts(ps.drop_last())
        }
    }
}

/// The extensions named between the first `{` of a pattern and the `}`
/// after it.
pub open spec fn brace_extensions(p: Seq<char>) -> Seq<Seq<char>> {
    let s = next_index(p, '{', 0);
    let e = next_index(p, '}', s);
    if s >= p.len() || e >= p.len() {
        Seq::empty()
    } else {
        brace_parts(split(p.subrange(s + 1, e), ','))
    }
}

/// The extensions a glob pattern such as `*.{mac,lisp}` or `*.lisp` names:
/// those in braces when there are any; else the text from the last dot;
/// else `.mac`, `.lisp` and `.max`.
pub open spec fn glob_extensions(p: Seq<char>) -> Seq<Seq<char>> {
    if has_char(p, '{') && brace_extensions(p).len() > 0 {
        brace_extensions(p)
    } else {
        match rfind(p, '.') {
            Some(d) => {
                let ext = trim_start_char(p.subrange(d, p.len() as int), '*');
                if starts_with(ext, "."@) {
                    seq![ext]
                } else {
                    default_extensions()
                }
            },
            None => default_extensions(),
        }
    }
}

/// The default extensions.
fn default_extension_list() -> (r: Vec<String>)
    ensures
        string_views(r@) == default_extensions(),
{
    let mut r: Vec<String> = Vec::new();
    r.push(String::from_str(".mac"));
    r.push(String::from_str(".lisp"));
    r.push(String::from_str(".max"));
    assert(string_views(r@) =~= default_extensions());
    r
}

/// The extensions a glob pattern names.
pub fn parse_glob_extensions(pattern: &str) -> (r: Vec<String>)
    ensures
        string_views(r@) == glob_extensions(pattern@),
{
    let p = chars_of(pattern);
    let ghost be = brace_extensions(p@);
    if crate::text::contains_char(p.as_slice(), '{') {
        let mut exts: Vec<String> = Vec::new();
        let s = next_index_of(p.as_slice(), '{', 0);
        let e = next_index_of(p.as_slice(), '}', s);
        if s < p.len() && e < p.len() {
            proof {
                crate::text::lemma_next_index_bounds(p@, '}', s as int);
                crate::text::lemma_next_index_bounds(p@, '{', 0);
            }
            assert(p@[s as int] == '{');
            assert(s < e);
            let inner = copy_range(p.as_slice(), s + 1, e);
            let parts = split_chars(inner.as_slice(), ',');
            let ghost pv = views(parts@);
            let mut i: usize = 0;
            assert(string_views(exts@) =~= brace_parts(pv.subrange(0, 0)));
            while i < parts.len()
                invariant
                    i <= parts@.len(),
                    pv == views(parts@),
                    string_views(exts@) == brace_parts(pv.subrange(0, i as int)),
                decreases parts@.len() - i,
            {
                let t0 = trim_chars(parts[i].as_slice());
                let t1 = trim_start_matches(t0.as_slice(), '*');
                let t2 = trim_start_matches(t1.as_slice(), '.');
                let ghost sub = pv.subrange(0, i + 1);
                assert(sub.drop_last() =~= pv.subrange(0, i as int));
                assert(sub.last() == parts@[i as int]@);
                if t2.len() > 0 {
                    let mut x = String::new();
                    crate::text::push_char(&mut x, '.');
                    append_chars(&mut x, t2.as_slice());
                    let ghost ev = exts@;
                    let ghost xv = x@;
                    exts.push(x);
                    assert(xv =~= seq!['.'] + t2@);
                    assert(string_views(exts@) =~= string_views(ev).push(xv));
                }
                i = i + 1;
            }
            assert(pv.subrange(0, pv.len() as int) =~= pv);
        }
        if exts.len() > 0 {
            return exts;
        }
        assert(be.len() == 0);
    }
    match rfind_char(p.as_slice(), '.') {
        Some(d) => {
            let tail = copy_range(p.as_slice(), d, p.len());
            let ext = trim_start_matches(tail.as_slice(), '*');
            let dot = chars_of(".");
            if has_prefix(ext.as_slice(), dot.as_slice()) {
                let mut r: Vec<String> = Vec::new();
                r.push(string_of(ext.as_slice()));
                assert(string_views(r@) =~= seq![ext@]);
                r
            } else {
                default_extension_list()
            }
        },
        None => default_extension_list(),
    }
}

/// The template a line of Maxima's search list describes: the directory
/// before `/**/` (searched recursively) or before the last `/`, and the
/// extensions of the pattern after it; `None` for a blank line or one
/// without a separator.
pub open spec fn template_of(t0: Seq<char>) -> Option<SearchTemplateView> {
    let t = trim(t0);
    if t.len() == 0 {
        None
    } else {
        let recursive = contains(t, "/**/"@);
        let parts = match find(t, "/**/"@) {
            Some(i) => Some((t.subrange(0, i), t.subrange(i + 4, t.len() as int))),
            None => match rfind(t, '/') {
                Some(i) => Some((t.subrange(0, i), t.subrange(i + 1, t.len() as int))),
                None => None,
            },
        };
        match parts {
            Some((root, pattern)) => {
                let exts = glob_extensions(pattern);
                if exts.len() == 0 {
                    None
                } else {
                    Some(SearchTemplateView { root, recursive, extensions: exts })
                }
            },
            None => None,
        }
    }
}

pub proof fn lemma_find_from_bounds(s: Seq<char>, p: Seq<char>, i: int)
    ensures
        find_from(s, p, i) matches Some(k) ==> i <= k && k + p.len() <= s.len() && 0 <= k,
    decreases s.len() + 1 - i,
{
    if !(i < 0 || i + p.len() > s.len()) && !crate::text::occurs_at(s, p, i) {
        lemma_find_from_bounds(s, p, i + 1);
    }
}

/// The template a line of Maxima's search list describes.
pub fn parse_template(template: &str) -> (r: Option<SearchTemplate>)
    ensures
        r matches Some(t) ==> template_of(template@) == Some(t@),
        r is None ==> template_of(template@) is None,
{
    let c = chars_of(template);
    let t = trim_chars(c.as_slice());
    if t.len() == 0 {
        return None;
    }
    let marker = chars_of("/**/");
    proof {
        reveal_strlit("/**/");
    }
    let found = find_at(t.as_slice(), marker.as_slice(), 0);
    let recursive = found.is_some();
    let (root, pattern) = match found {
        Some(i) => {
            proof {
                lemma_find_from_bounds(t@, marker@, 0);
            }
            (copy_range(t.as_slice(), 0, i), copy_range(t.as_slice(), i + 4, t.len()))
        },
        None => match rfind_char(t.as_slice(), '/') {
            Some(i) => (copy_range(t.as_slice(), 0, i), copy_range(t.as_slice(), i + 1, t.len())),
            None => {
                return None;
            },
        },
    };
    let extensions = parse_glob_extensions(string_of(pattern.as_slice()).as_str());
    if extensions.len() == 0 {
        return None;
    }
    let r = SearchTemplate { root: string_of(root.as_slice()), recursive, extensions };
    assert(template_of(template@) == Some(r@));
    Some(r)
}


// ---------------------------------------------------------------------
// The resolver

/// What a resolver knows.
pub struct PathResolverView {
    pub maxima_cmd: Option<Seq<char>>,
    pub maxima_userdir: Option<Seq<char>>,
    pub maxpack_root: Option<Seq<char>>,
    pub templates: Seq<SearchTemplateView>,
    pub maxpack_packages: Map<Seq<char>, Seq<char>>,
    pub cache: Map<Seq<char>, Seq<char>>,
}

/// Resolves `load`/`batch`/`import` names to files: relative to the
/// importing file, through maxpack packages, through Maxima's own file
/// search, and through the search templates Maxima reports.
pub struct PathResolver {
    maxima_cmd: Option<String>,
    maxima_userdir: Option<String>,
    maxpack_root: Option<String>,
    templates: Vec<SearchTemplate>,
    maxpack_packages: NameMap<String>,
    cache: NameMap<String>,
}

/// The view of an optional string.
pub open spec fn opt_str(o: Option<String>) -> Option<Seq<char>> {
    match o {
        Some(s) => Some(s@),
        None => None,
    }
}

/// The views of a map of strings.
pub open spec fn string_map_view(m: Map<Seq<char>, String>) -> Map<Seq<char>, Seq<char>> {
    m.map_values(|s: String| s@)
}

/// The views of templates.
pub open spec fn template_views(ts: Seq<SearchTemplate>) -> Seq<SearchTemplateView> {
    ts.map_values(|t: SearchTemplate| t@)
}

impl View for PathResolver {
    type V = PathResolverView;

    closed spec fn view(&self) -> PathResolverView {
        PathResolverView {
            maxima_cmd: opt_str(self.maxima_cmd),
            maxima_userdir: opt_str(self.maxima_userdir),
            maxpack_root: opt_str(self.maxpack_root),
            templates: template_views(self.templates@),
            maxpack_packages: string_map_view(self.maxpack_packages.map()),
            cache: string_map_view(self.cache.map()),
        }
    }
}

/// Copies of templates.
pub fn clone_templates(ts: &Vec<SearchTemplate>) -> (r: Vec<SearchTemplate>)
    ensures
        template_views(r@) == template_views(ts@),
{
    let mut r: Vec<SearchTemplate> = Vec::new();
    let mut i: usize = 0;
    while i < ts.len()
        invariant
            i <= ts@.len(),
            template_views(r@) == template_views(ts@.subrange(0, i as int)),
        decreases ts@.len() - i,
    {
        let t = ts[i].duplicate();
        let ghost before = r@;
        r.push(t);
        assert(template_views(r@) =~= template_views(before).push(ts@[i as int]@));
        assert(template_views(ts@.subrange(0, i + 1)) =~= template_views(
            ts@.subrange(0, i as int),
        ).push(ts@[i as int]@));
        i = i + 1;
    }
    assert(ts@.subrange(0, ts@.len() as int) =~= ts@);
    r
}

/// A copy of an optional string.
pub fn clone_opt(o: &Option<String>) -> (r: Option<String>)
    ensures
        opt_str(r) == opt_str(*o),
{
    match o {
        Some(s) => Some(s.clone()),
        None => None,
    }
}

/// The script that makes Maxima print its user directory and its search
/// templates, one per line, after `USERDIR:` and `TEMPLATE:`.
pub const PATHS_SCRIPT: &'static str = "block([paths],\n  print(\"USERDIR:\", maxima_userdir),\n  paths : append(append(file_search_lisp, file_search_maxima), file_search_demo),\n  for p in paths do (\n    if p # false and stringp(p) then print(\"TEMPLATE:\", p)\n  )\n)$";

/// The script that makes Maxima print its user directory and its search
/// templates.
pub fn maxima_paths_script() -> (r: &'static str)
    ensures
        r@ == PATHS_SCRIPT@,
{
    PATHS_SCRIPT
}

/// What one line of the paths script's output changes: a `USERDIR:` line
/// sets the user directory unless it is blank or `false`; a `TEMPLATE:`
/// line adds the template it describes.
pub open spec fn output_line_step(r: PathResolverView, line: Seq<char>) -> PathResolverView {
    let t = trim(line);
    if starts_with(t, "USERDIR:"@) {
        let dir = trim(t.subrange(8, t.len() as int));
        if dir.len() > 0 && dir != "false"@ {
            PathResolverView { maxima_userdir: Some(dir), ..r }
        } else {
            r
        }
    } else if starts_with(t, "TEMPLATE:"@) {
        let tpl = trim(t.subrange(9, t.len() as int));
        if tpl.len() == 0 {
            r
        } else {
            match template_of(tpl) {
                Some(tv) => PathResolverView { templates: r.templates.push(tv), ..r },
                None => r,
            }
        }
    } else {
        r
    }
}

/// The resolver after reading the lines of the paths script's output.
pub open spec fn output_lines_step(r: PathResolverView, ls: Seq<Seq<char>>) -> PathResolverView
    decreases ls.len(),
{
    if ls.len() == 0 {
        r
    } else {
        output_line_step(output_lines_step(r, ls.drop_last()), ls.last())
    }
}

impl PathResolver {
    /// A resolver with the given Maxima command, directories, templates and
    /// packages, and nothing resolved yet.
    pub fn new(
        maxima_cmd: Option<String>,
        maxima_userdir: Option<String>,
        maxpack_root: Option<String>,
        templates: Vec<SearchTemplate>,
        maxpack_packages: NameMap<String>,
    ) -> (r: PathResolver)
        ensures
            r@.maxima_cmd == opt_str(maxima_cmd),
            r@.maxima_userdir == opt_str(maxima_userdir),
            r@.maxpack_root == opt_str(maxpack_root),
            r@.templates == template_views(templates@),
            r@.maxpack_packages == string_map_view(maxpack_packages.map()),
            r@.cache == Map::<Seq<char>, Seq<char>>::empty(),
    {
        let r = PathResolver {
            maxima_cmd,
            maxima_userdir,
            maxpack_root,
            templates,
            maxpack_packages,
            cache: NameMap::new(),
        };
        assert(string_map_view(r.cache.map()) =~= Map::<Seq<char>, Seq<char>>::empty());
        r
    }

    /// The number of search templates.
    pub fn template_count(&self) -> (n: usize)
        ensures
            n == self@.templates.len(),
    {
        self.templates.len()
    }

    /// Completes discovery for a user whose home is `home`: the fallback
    /// templates are used when Maxima reported none; with a home, the
    /// maxpack root is its `.maxpack`, the packages found there are kept,
    /// and the user directory defaults to its `.maxima`.
    pub fn finish_discovery(
        &mut self,
        home: Option<&str>,
        fallback: Vec<SearchTemplate>,
        maxpack_packages: NameMap<String>,
    )
        ensures
            old(self)@.templates.len() == 0 && home is Some ==> final(self)@.templates
                == template_views(fallback@),
            !(old(self)@.templates.len() == 0 && home is Some) ==> final(self)@.templates
                == old(self)@.templates,
            home matches Some(h) ==> final(self)@.maxpack_root == Some(join_spec(h@, ".maxpack"@))
                && final(self)@.maxpack_packages == string_map_view(maxpack_packages.map())
                && final(self)@.maxima_userdir == (match old(self)@.maxima_userdir {
                Some(d) => Some(d),
                None => Some(join_spec(h@, ".maxima"@)),
            }),
            home is None ==> final(self)@.maxpack_root == old(self)@.maxpack_root
                && final(self)@.maxpack_packages == old(self)@.maxpack_packages
                && final(self)@.maxima_userdir == old(self)@.maxima_userdir,
            final(self)@.maxima_cmd == old(self)@.maxima_cmd,
            final(self)@.cache == old(self)@.cache,
    {
        let h = match home {
            Some(h) => h,
            None => {
                return;
            },
        };
        if self.templates.len() == 0 {
            self.templates = fallback;
        }
        self.maxpack_root = Some(join(h, ".maxpack"));
        self.maxpack_packages = maxpack_packages;
        if self.maxima_userdir.is_none() {
            self.maxima_userdir = Some(join(h, ".maxima"));
        }
    }

    /// Takes in the output of the paths script: the user directory and the
    /// search templates Maxima reports.
    pub fn load_from_maxima_output(&mut self, output: &str)
        ensures
            final(self)@ == output_lines_step(old(self)@, crate::text::lines(output@)),
    {
        let c = chars_of(output);
        let ls = crate::text::lines_of(c.as_slice());
        let ghost lv = views(ls@);
        let userdir_tag = chars_of("USERDIR:");
        let template_tag = chars_of("TEMPLATE:");
        let false_word = chars_of("false");
        proof {
            reveal_strlit("USERDIR:");
            reveal_strlit("TEMPLATE:");
        }
        let mut i: usize = 0;
        assert(self@ == output_lines_step(old(self)@, lv.subrange(0, 0)));
        while i < ls.len()
            invariant
                i <= ls@.len(),
                lv == views(ls@),
                lv == crate::text::lines(output@),
                userdir_tag@ == "USERDIR:"@,
                template_tag@ == "TEMPLATE:"@,
                false_word@ == "false"@,
                self@ == output_lines_step(old(self)@, lv.subrange(0, i as int)),
            decreases ls@.len() - i,
        {
            let ghost before = self@;
            let t = trim_chars(ls[i].as_slice());
            proof {
                reveal_strlit("USERDIR:");
                reveal_strlit("TEMPLATE:");
            }
            if has_prefix(t.as_slice(), userdir_tag.as_slice()) {
                let rest = copy_range(t.as_slice(), 8, t.len());
                let dir = trim_chars(rest.as_slice());
                let is_false = crate::text::str_equals(
                    string_of(dir.as_slice()).as_str(),
                    "false",
                );
                if dir.len() > 0 && !is_false {
                    self.maxima_userdir = Some(string_of(dir.as_slice()));
                }
            } else if has_prefix(t.as_slice(), template_tag.as_slice()) {
                let rest = copy_range(t.as_slice(), 9, t.len());
                let tpl = trim_chars(rest.as_slice());
                if tpl.len() > 0 {
                    match parse_template(string_of(tpl.as_slice()).as_str()) {
                        Some(parsed) => {
                            let ghost tv = template_views(self.templates@);
                            let ghost pv = parsed@;
                            self.templates.push(parsed);
                            assert(template_views(self.templates@) =~= tv.push(pv));
                        },
                        None => {},
                    }
                }
            }
            let ghost sub = lv.subrange(0, i + 1);
            assert(sub.drop_last() =~= lv.subrange(0, i as int));
            assert(sub.last() == ls@[i as int]@);
            assert(self@ =~= output_line_step(before, sub.last()));
            i = i + 1;
        }
        assert(lv.subrange(0, lv.len() as int) =~= lv);
    }
}


// ---------------------------------------------------------------------
// Candidate files

/// The extensions tried after a name as given.
pub open spec fn load_extensions() -> Seq<Seq<char>> {
    seq![".mac"@, ".max"@, ".lisp"@, ".lsp"@, ".wxm"@, ".dem"@]
}

/// `p` with the extension `ext` (which starts with a dot): replacing its
/// extension when it has one, appended otherwise.
pub open spec fn with_load_extension(p: Seq<char>, ext: Seq<char>) -> Seq<char> {
    if extension_spec(p) is Some {
        with_extension_spec(p, ext.subrange(1, ext.len() as int))
    } else {
        p + ext
    }
}

/// The files tried for a name resolved against `base`: the path itself
/// (absolute, or joined to `base`), tried twice, then with each extension.
pub open spec fn existing_candidates(name: Seq<char>, base: Seq<char>) -> Seq<Seq<char>> {
    let q = if is_absolute_spec(name) {
        name
    } else {
        join_spec(base, name)
    };
    seq![q, q] + load_extensions().map_values(|e: Seq<char>| with_load_extension(q, e))
}

/// The last component of a trimmed name, or the name itself.
pub open spec fn stem_of(t: Seq<char>) -> Seq<char> {
    match file_name_spec(t) {
        Some(n) => n,
        None => t,
    }
}

/// The files tried in a maxpack package: for a version, `init.mac`,
/// `<stem>.mac` and `init.lisp` under `<root>/<stem>/<version>/src`; without
/// one, the file found for the package when packages were discovered.
pub open spec fn maxpack_candidates(
    r: PathResolverView,
    stem: Seq<char>,
    version: Option<Seq<char>>,
) -> Seq<Seq<char>> {
    match version {
        Some(v) => match r.maxpack_root {
            Some(h) => {
                let src = join_spec(join_spec(join_spec(h, stem), v), "src"@);
                seq![
                    join_spec(src, "init.mac"@),
                    join_spec(src, stem + ".mac"@),
                    join_spec(src, "init.lisp"@),
                ]
            },
            None => Seq::empty(),
        },
        None => package_candidate(r, stem),
    }
}

/// The file recorded for package `stem`, if any.
pub open spec fn package_candidate(r: PathResolverView, stem: Seq<char>) -> Seq<Seq<char>> {
    if r.maxpack_packages.contains_key(stem) {
        seq![r.maxpack_packages[stem]]
    } else {
        Seq::empty()
    }
}

/// The files tried, in order, before Maxima and the templates are asked.
pub open spec fn file_candidates(
    r: PathResolverView,
    name: Seq<char>,
    version: Option<Seq<char>>,
    base: Seq<char>,
) -> Seq<Seq<char>> {
    let t = trim(name);
    let stem = stem_of(t);
    existing_candidates(t, base) + (if stem != t {
        existing_candidates(stem, base)
    } else {
        Seq::empty()
    }) + maxpack_candidates(r, stem, version) + (if version is None {
        package_candidate(r, stem)
    } else {
        Seq::empty()
    })
}

/// The key under which a resolution is remembered.
pub open spec fn cache_key(base: Seq<char>, package: Seq<char>, version: Option<Seq<char>>) -> Seq<
    char,
> {
    base + "::"@ + package + "::"@ + match version {
        Some(v) => v,
        None => Seq::empty(),
    }
}

/// `s` with `\` and `"` escaped by a backslash, for a Maxima string.
pub open spec fn escape_maxima(s: Seq<char>) -> Seq<char>
    decreases s.len(),
{
    if s.len() == 0 {
        Seq::empty()
    } else {
        escape_maxima(s.drop_last()) + if s.last() == '\\' {
            seq!['\\', '\\']
        } else if s.last() == '"' {
            seq!['\\', '"']
        } else {
            seq![s.last()]
        }
    }
}

/// The script that makes Maxima print where its file search finds `name`.
pub open spec fn file_search_script_spec(name: Seq<char>) -> Seq<char> {
    "print(file_search(\""@ + escape_maxima(name) + "\"))$"@
}

/// The candidate paths on the lines of Maxima's answer to a file search:
/// lines that are blank, `false`, or start with `Loading `, `(%i` or `(%o`
/// are skipped; the words of the others, without surrounding quotes, are
/// the candidates, except `false` and empty ones.
pub open spec fn output_path_tokens(ls: Seq<Seq<char>>) -> Seq<Seq<char>>
    decreases ls.len(),
{
    if ls.len() == 0 {
        Seq::empty()
    } else {
        let t = trim(ls.last());
        let rest = output_path_tokens(ls.drop_last());
        if t.len() == 0 || starts_with(t, "Loading "@) || starts_with(t, "(%i"@) || starts_with(
            t,
            "(%o"@,
        ) || t == "false"@ {
            rest
        } else {
            rest + word_tokens(crate::text::words(t))
        }
    }
}

/// The words without surrounding quotes, except `false` and empty ones.
pub open spec fn word_tokens(ws: Seq<Seq<char>>) -> Seq<Seq<char>>
    decreases ws.len(),
{
    if ws.len() == 0 {
        Seq::empty()
    } else {
        let w = crate::text::trim_char(ws.last(), '"');
        if w == "false"@ || w.len() == 0 {
            word_tokens(ws.drop_last())
        } else {
            word_tokens(ws.drop_last()).push(w)
        }
    }
}

/// The script that makes Maxima print where its file search finds `name`.
pub fn file_search_script(name: &str) -> (r: String)
    ensures
        r@ == file_search_script_spec(name@),
{
    let c = chars_of(name);
    let mut r = String::new();
    append_str(&mut r, "print(file_search(\"");
    let ghost start = r@;
    let mut i: usize = 0;
    while i < c.len()
        invariant
            i <= c@.len(),
            r@ == start + escape_maxima(c@.subrange(0, i as int)),
        decreases c@.len() - i,
    {
        let ghost sub = c@.subrange(0, i + 1);
        assert(sub.drop_last() =~= c@.subrange(0, i as int));
        let ch = c[i];
        if ch == '\\' {
            crate::text::push_char(&mut r, '\\');
            crate::text::push_char(&mut r, '\\');
        } else if ch == '"' {
            crate::text::push_char(&mut r, '\\');
            crate::text::push_char(&mut r, '"');
        } else {
            crate::text::push_char(&mut r, ch);
        }
        i = i + 1;
        assert(r@ =~= start + escape_maxima(c@.subrange(0, i as int)));
    }
    append_str(&mut r, "\"))$");
    assert(c@.subrange(0, c@.len() as int) =~= c@);
    r
}

/// The candidate paths in Maxima's answer to a file search.
pub fn maxima_output_paths(output: &str) -> (r: Vec<String>)
    ensures
        string_views(r@) == output_path_tokens(crate::text::lines(output@)),
{
    let c = chars_of(output);
    let ls = crate::text::lines_of(c.as_slice());
    let ghost lv = views(ls@);
    let loading = chars_of("Loading ");
    let input = chars_of("(%i");
    let out_tag = chars_of("(%o");
    let mut r: Vec<String> = Vec::new();
    let mut i: usize = 0;
    assert(string_views(r@) =~= output_path_tokens(lv.subrange(0, 0)));
    while i < ls.len()
        invariant
            i <= ls@.len(),
            lv == views(ls@),
            lv == crate::text::lines(output@),
            loading@ == "Loading "@,
            input@ == "(%i"@,
            out_tag@ == "(%o"@,
            string_views(r@) == output_path_tokens(lv.subrange(0, i as int)),
        decreases ls@.len() - i,
    {
        let ghost sub = lv.subrange(0, i + 1);
        assert(sub.drop_last() =~= lv.subrange(0, i as int));
        assert(sub.last() == ls@[i as int]@);
        let t = trim_chars(ls[i].as_slice());
        let ts = string_of(t.as_slice());
        if !(t.len() == 0 || has_prefix(t.as_slice(), loading.as_slice()) || has_prefix(
            t.as_slice(),
            input.as_slice(),
        ) || has_prefix(t.as_slice(), out_tag.as_slice()) || crate::text::str_equals(
            ts.as_str(),
            "false",
        )) {
            let ws = crate::text::words_of(t.as_slice());
            let ghost wv = views(ws@);
            let ghost r0 = string_views(r@);
            let mut j: usize = 0;
            assert(word_tokens(wv.subrange(0, 0)) =~= Seq::<Seq<char>>::empty());
            assert(string_views(r@) =~= r0 + word_tokens(wv.subrange(0, 0)));
            while j < ws.len()
                invariant
                    j <= ws@.len(),
                    wv == views(ws@),
                    string_views(r@) == r0 + word_tokens(wv.subrange(0, j as int)),
                decreases ws@.len() - j,
            {
                let ghost wsub = wv.subrange(0, j + 1);
                assert(wsub.drop_last() =~= wv.subrange(0, j as int));
                assert(wsub.last() == ws@[j as int]@);
                let w = crate::text::trim_matches(ws[j].as_slice(), '"');
                let wstr = string_of(w.as_slice());
                if !(crate::text::str_equals(wstr.as_str(), "false") || w.len() == 0) {
                    let ghost before = string_views(r@);
                    r.push(wstr);
                    assert(string_views(r@) =~= before.push(w@));
                }
                j = j + 1;
            }
            assert(wv.subrange(0, wv.len() as int) =~= wv);
        }
        i = i + 1;
    }
    assert(lv.subrange(0, lv.len() as int) =~= lv);
    r
}


// ---------------------------------------------------------------------
// The search

/// A piece of work left in a search.
pub enum TaskView {
    /// Try this file.
    File(Seq<char>),
    /// Ask Maxima's file search.
    Maxima,
    /// Try the template at this index.
    Template(int),
    /// List this directory, searched for the template at the index.
    Dir(Seq<char>, int),
    /// Look at this directory entry.
    Entry(Seq<char>, int),
    /// Try this entry, whose name matches, as a file.
    EntryFile(Seq<char>),
}

/// A piece of work left in a search.
pub enum SearchTask {
    File(String),
    Maxima,
    Template(usize),
    Dir(String, usize),
    Entry(String, usize),
    EntryFile(String),
}

impl View for SearchTask {
    type V = TaskView;

    open spec fn view(&self) -> TaskView {
        match self {
            SearchTask::File(p) => TaskView::File(p@),
            SearchTask::Maxima => TaskView::Maxima,
            SearchTask::Template(i) => TaskView::Template(*i as int),
            SearchTask::Dir(d, i) => TaskView::Dir(d@, *i as int),
            SearchTask::Entry(e, i) => TaskView::Entry(e@, *i as int),
            SearchTask::EntryFile(e) => TaskView::EntryFile(e@),
        }
    }
}

/// The views of tasks.
pub open spec fn task_views(ts: Seq<SearchTask>) -> Seq<TaskView> {
    ts.map_values(|t: SearchTask| t@)
}

/// A question about the file system, or a run of Maxima.
pub enum ProbeView {
    IsFile(Seq<char>),
    IsDir(Seq<char>),
    ListDir(Seq<char>),
    RunMaxima(Seq<char>),
}

/// A question about the file system, or a run of Maxima, that a search
/// needs answered.
pub enum Probe {
    /// Is this path a file?
    IsFile(String),
    /// Is this path a directory?
    IsDir(String),
    /// The paths of the entries of this directory, in listing order (none
    /// when it cannot be read).
    ListDir(String),
    /// The output of Maxima run in batch mode on this script.
    RunMaxima(String),
}

impl View for Probe {
    type V = ProbeView;

    open spec fn view(&self) -> ProbeView {
        match self {
            Probe::IsFile(p) => ProbeView::IsFile(p@),
            Probe::IsDir(p) => ProbeView::IsDir(p@),
            Probe::ListDir(p) => ProbeView::ListDir(p@),
            Probe::RunMaxima(p) => ProbeView::RunMaxima(p@),
        }
    }
}

/// The answer to a probe.
pub enum AnswerView {
    Flag(bool),
    Entries(Seq<Seq<char>>),
    Output(Seq<char>),
}

/// The answer to a probe.
pub enum ProbeAnswer {
    /// The answer to `IsFile` and `IsDir`.
    Flag(bool),
    /// The answer to `ListDir`.
    Entries(Vec<String>),
    /// The answer to `RunMaxima`.
    Output(String),
}

impl View for ProbeAnswer {
    type V = AnswerView;

    open spec fn view(&self) -> AnswerView {
        match self {
            ProbeAnswer::Flag(b) => AnswerView::Flag(*b),
            ProbeAnswer::Entries(es) => AnswerView::Entries(string_views(es@)),
            ProbeAnswer::Output(o) => AnswerView::Output(o@),
        }
    }
}

/// What a search asks for next, or its result.
pub enum SearchStep {
    Probe(Probe),
    Done(Option<String>),
}

/// What a search asks for next, or its result.
pub enum StepView {
    Probe(ProbeView),
    Done(Option<Seq<char>>),
}

impl View for SearchStep {
    type V = StepView;

    open spec fn view(&self) -> StepView {
        match self {
            SearchStep::Probe(p) => StepView::Probe(p@),
            SearchStep::Done(d) => StepView::Done(opt_str(*d)),
        }
    }
}

/// The search after asking for its next step, and that step: the result
/// when it is done; the probe of the task under way; the end when no task
/// is left; else the probe of the task on top of the stack, which is taken
/// off it.
pub open spec fn next_of(s: PathSearchView) -> (PathSearchView, StepView) {
    match s.outcome {
        Some(o) => (s, StepView::Done(o)),
        None => match s.pending {
            Some(t) => (s, StepView::Probe(probe_of(s, t))),
            None => if s.tasks.len() == 0 {
                (PathSearchView { outcome: Some(None), ..s }, StepView::Done(None))
            } else {
                (
                    PathSearchView {
                        tasks: s.tasks.drop_last(),
                        pending: Some(s.tasks.last()),
                        ..s
                    },
                    StepView::Probe(probe_of(s, s.tasks.last())),
                )
            },
        },
    }
}

/// What a search is doing.
pub struct PathSearchView {
    pub key: Seq<char>,
    pub stem: Seq<char>,
    pub templates: Seq<SearchTemplateView>,
    pub tasks: Seq<TaskView>,
    pub pending: Option<TaskView>,
    pub outcome: Option<Option<Seq<char>>>,
}

/// The resolution of one name, run as a sequence of probes: the caller
/// asks for the next step, answers its probe, and repeats until the search
/// is done. The tasks are a stack whose last element is tried next.
pub struct PathSearch {
    key: String,
    stem: String,
    templates: Vec<SearchTemplate>,
    tasks: Vec<SearchTask>,
    pending: Option<SearchTask>,
    outcome: Option<Option<String>>,
}

/// The view of an optional task.
pub open spec fn opt_task(o: Option<SearchTask>) -> Option<TaskView> {
    match o {
        Some(t) => Some(t@),
        None => None,
    }
}

/// The view of an optional outcome.
pub open spec fn opt_outcome(o: Option<Option<String>>) -> Option<Option<Seq<char>>> {
    match o {
        Some(r) => Some(opt_str(r)),
        None => None,
    }
}

impl View for PathSearch {
    type V = PathSearchView;

    closed spec fn view(&self) -> PathSearchView {
        PathSearchView {
            key: self.key@,
            stem: self.stem@,
            templates: template_views(self.templates@),
            tasks: task_views(self.tasks@),
            pending: opt_task(self.pending),
            outcome: opt_outcome(self.outcome),
        }
    }
}

/// The tasks a resolution starts with, in the order they are tried: the
/// candidate files, then Maxima's file search when Maxima is known, then
/// each template.
pub open spec fn initial_tasks(
    r: PathResolverView,
    name: Seq<char>,
    version: Option<Seq<char>>,
    base: Seq<char>,
) -> Seq<TaskView> {
    file_candidates(r, name, version, base).map_values(|p: Seq<char>| TaskView::File(p)) + (if r.maxima_cmd is Some {
        seq![TaskView::Maxima]
    } else {
        Seq::empty()
    }) + Seq::new(r.templates.len(), |i: int| TaskView::Template(i))
}

/// The probe that a task needs answered.
pub open spec fn probe_of(s: PathSearchView, t: TaskView) -> ProbeView {
    match t {
        TaskView::File(p) => ProbeView::IsFile(p),
        TaskView::Maxima => ProbeView::RunMaxima(file_search_script_spec(s.stem)),
        TaskView::Template(i) => ProbeView::IsDir(
            if 0 <= i < s.templates.len() {
                s.templates[i].root
            } else {
                Seq::empty()
            },
        ),
        TaskView::Dir(d, _) => ProbeView::ListDir(d),
        TaskView::Entry(e, _) => ProbeView::IsDir(e),
        TaskView::EntryFile(e) => ProbeView::IsFile(e),
    }
}

/// The files tried in a template's directory for `stem`: for each
/// extension the file directly in it and the one in a subdirectory named
/// `stem`.
pub open spec fn template_files(t: SearchTemplateView, stem: Seq<char>, exts: Seq<Seq<char>>) -> Seq<
    TaskView,
>
    decreases exts.len(),
{
    if exts.len() == 0 {
        Seq::empty()
    } else {
        template_files(t, stem, exts.drop_last()) + seq![
            TaskView::File(join_spec(t.root, stem + exts.last())),
            TaskView::File(join_spec(join_spec(t.root, stem), stem + exts.last())),
        ]
    }
}

/// The tasks for a template whose directory exists: its files, then, for a
/// recursive template, the listing of its directory.
pub open spec fn template_tasks(t: SearchTemplateView, stem: Seq<char>, i: int) -> Seq<TaskView> {
    template_files(t, stem, t.extensions) + if t.recursive {
        seq![TaskView::Dir(t.root, i)]
    } else {
        Seq::empty()
    }
}

/// Whether a directory entry that is not a directory is a candidate: its
/// stem is the searched stem and its extension, with a dot, is one of the
/// template's.
pub open spec fn entry_matches(e: Seq<char>, stem: Seq<char>, exts: Seq<Seq<char>>) -> bool {
    &&& match file_stem_spec(e) {
        Some(x) => x,
        None => Seq::empty(),
    } == stem
    &&& match extension_spec(e) {
        Some(x) => exts.contains(seq!['.'] + x),
        None => false,
    }
}

/// `s` with `items` put on its task stack so that the first is tried first.
pub open spec fn push_tasks(s: PathSearchView, items: Seq<TaskView>) -> PathSearchView {
    PathSearchView { tasks: s.tasks + items.reverse(), ..s }
}

/// The search after the answer `a` to the probe of task `t`: a file found
/// ends it; Maxima's output adds the paths it names; an existing template
/// directory adds its tasks; a listing adds its entries; a subdirectory is
/// listed in turn; a matching entry is tried as a file.
pub open spec fn after_answer(s: PathSearchView, t: TaskView, a: AnswerView) -> PathSearchView {
    match t {
        TaskView::File(p) => if a == AnswerView::Flag(true) {
            PathSearchView { outcome: Some(Some(p)), ..s }
        } else {
            s
        },
        TaskView::Maxima => match a {
            AnswerView::Output(o) => push_tasks(
                s,
                output_path_tokens(crate::text::lines(o)).map_values(
                    |p: Seq<char>| TaskView::File(p),
                ),
            ),
            _ => s,
        },
        TaskView::Template(i) => if a == AnswerView::Flag(true) && 0 <= i < s.templates.len() {
            push_tasks(s, template_tasks(s.templates[i], s.stem, i))
        } else {
            s
        },
        TaskView::Dir(_, i) => match a {
            AnswerView::Entries(es) => push_tasks(
                s,
                es.map_values(|e: Seq<char>| TaskView::Entry(e, i)),
            ),
            _ => s,
        },
        TaskView::Entry(e, i) => if a == AnswerView::Flag(true) {
            push_tasks(s, seq![TaskView::Dir(e, i)])
        } else if a == AnswerView::Flag(false) && 0 <= i < s.templates.len() && entry_matches(
            e,
            s.stem,
            s.templates[i].extensions,
        ) {
            push_tasks(s, seq![TaskView::EntryFile(e)])
        } else {
            s
        },
        TaskView::EntryFile(e) => if a == AnswerView::Flag(true) {
            PathSearchView { outcome: Some(Some(e)), ..s }
        } else {
            s
        },
    }
}


/// Puts `items` on the stack so that the first is on top.
fn push_task_list(tasks: &mut Vec<SearchTask>, items: Vec<SearchTask>)
    ensures
        task_views(final(tasks)@) == task_views(old(tasks)@) + task_views(items@).reverse(),
{
    let ghost orig = task_views(items@);
    let ghost n = items@.len();
    let mut items = items;
    while items.len() > 0
        invariant
            task_views(items@) == orig.subrange(0, items@.len() as int),
            items@.len() <= n,
            orig.len() == n,
            task_views(tasks@) == task_views(old(tasks)@) + orig.subrange(
                items@.len() as int,
                n as int,
            ).reverse(),
        decreases items@.len(),
    {
        let ghost k = items@.len();
        let ghost old_items = items@;
        let x = items.pop().unwrap();
        assert(x == old_items[k - 1]);
        assert(task_views(old_items)[k - 1] == orig.subrange(0, k as int)[k - 1]);
        assert(x@ == orig[k - 1]);
        let ghost before = task_views(tasks@);
        tasks.push(x);
        assert(task_views(tasks@) =~= before.push(x@));
        assert(task_views(items@) =~= orig.subrange(0, k - 1));
        assert(orig.subrange(k - 1, n as int).reverse() =~= orig.subrange(k as int, n as int).reverse().push(
            orig[k - 1],
        ));
    }
    assert(orig.subrange(0, n as int) =~= orig);
}

/// `p` with the load extension `ext`.
fn with_load_ext(p: &str, ext: &str) -> (r: String)
    requires
        ext@.len() >= 1,
    ensures
        r@ == with_load_extension(p@, ext@),
{
    if has_extension(p) {
        let e = chars_of(ext);
        let bare = string_of(copy_range(e.as_slice(), 1, e.len()).as_slice());
        with_extension(p, bare.as_str())
    } else {
        let mut r = String::from_str(p);
        append_str(&mut r, ext);
        r
    }
}

/// The files tried for `name` resolved against `base`.
fn existing_candidate_list(name: &str, base: &str) -> (r: Vec<String>)
    ensures
        string_views(r@) == existing_candidates(name@, base@),
{
    let q = if is_absolute(name) {
        String::from_str(name)
    } else {
        join(base, name)
    };
    let mut r: Vec<String> = Vec::new();
    r.push(q.clone());
    r.push(q.clone());
    proof {
        reveal_strlit(".mac");
        reveal_strlit(".max");
        reveal_strlit(".lisp");
        reveal_strlit(".lsp");
        reveal_strlit(".wxm");
        reveal_strlit(".dem");
    }
    r.push(with_load_ext(q.as_str(), ".mac"));
    r.push(with_load_ext(q.as_str(), ".max"));
    r.push(with_load_ext(q.as_str(), ".lisp"));
    r.push(with_load_ext(q.as_str(), ".lsp"));
    r.push(with_load_ext(q.as_str(), ".wxm"));
    r.push(with_load_ext(q.as_str(), ".dem"));
    assert(string_views(r@) =~= existing_candidates(name@, base@));
    r
}

/// Appends the views of `b` to `a`.
fn append_strings(a: &mut Vec<String>, b: Vec<String>)
    ensures
        string_views(final(a)@) == string_views(old(a)@) + string_views(b@),
{
    let mut b = b;
    let ghost bv = string_views(b@);
    let mut rest: Vec<String> = Vec::new();
    while b.len() > 0
        invariant
            string_views(rest@) == bv.subrange(b@.len() as int, bv.len() as int).reverse(),
            string_views(b@) == bv.subrange(0, b@.len() as int),
            b@.len() <= bv.len(),
        decreases b@.len(),
    {
        let ghost k = b@.len();
        let ghost old_b = b@;
        let x = b.pop().unwrap();
        assert(x == old_b[k - 1]);
        assert(string_views(old_b)[k - 1] == bv.subrange(0, k as int)[k - 1]);
        let ghost before = string_views(rest@);
        rest.push(x);
        assert(string_views(rest@) =~= before.push(bv[k - 1]));
        assert(string_views(b@) =~= bv.subrange(0, k - 1));
        assert(bv.subrange(k - 1, bv.len() as int).reverse() =~= bv.subrange(
            k as int,
            bv.len() as int,
        ).reverse().push(bv[k - 1]));
    }
    assert(bv.subrange(0, bv.len() as int).reverse().reverse() =~= bv);
    let ghost start = string_views(a@);
    let ghost rv = string_views(rest@);
    while rest.len() > 0
        invariant
            rv == bv.reverse(),
            string_views(rest@) == rv.subrange(0, rest@.len() as int),
            rest@.len() <= rv.len(),
            string_views(a@) == start + bv.subrange(0, bv.len() - rest@.len()),
        decreases rest@.len(),
    {
        let ghost k = rest@.len();
        let ghost old_rest = rest@;
        let x = rest.pop().unwrap();
        assert(x == old_rest[k - 1]);
        assert(string_views(old_rest)[k - 1] == rv.subrange(0, k as int)[k - 1]);
        let ghost before = string_views(a@);
        a.push(x);
        assert(string_views(a@) =~= before.push(rv[k - 1]));
        assert(rv[k - 1] == bv[bv.len() - k]);
        assert(string_views(rest@) =~= rv.subrange(0, k - 1));
        assert(bv.subrange(0, bv.len() - (k - 1)) =~= bv.subrange(0, bv.len() - k).push(
            bv[bv.len() - k],
        ));
    }
    assert(bv.subrange(0, bv.len() as int) =~= bv);
}

impl PathResolver {
    /// The file recorded for package `stem`, if any.
    fn package_file(&self, stem: &str) -> (r: Vec<String>)
        ensures
            string_views(r@) == package_candidate(self@, stem@),
    {
        let mut r: Vec<String> = Vec::new();
        match self.maxpack_packages.get(stem) {
            Some(p) => {
                r.push(p.clone());
                assert(string_views(r@) =~= seq![p@]);
            },
            None => {
                assert(string_views(r@) =~= Seq::<Seq<char>>::empty());
            },
        }
        r
    }

    /// The files tried in a maxpack package.
    fn maxpack_files(&self, stem: &str, version: Option<&str>) -> (r: Vec<String>)
        ensures
            string_views(r@) == maxpack_candidates(self@, stem@, match version {
                Some(v) => Some(v@),
                None => None,
            }),
    {
        match version {
            Some(v) => match &self.maxpack_root {
                Some(h) => {
                    let src = join(join(join(h.as_str(), stem).as_str(), v).as_str(), "src");
                    let mut named = String::from_str(stem);
                    append_str(&mut named, ".mac");
                    let mut r: Vec<String> = Vec::new();
                    r.push(join(src.as_str(), "init.mac"));
                    r.push(join(src.as_str(), named.as_str()));
                    r.push(join(src.as_str(), "init.lisp"));
                    assert(string_views(r@) =~= maxpack_candidates(self@, stem@, Some(v@)));
                    r
                },
                None => {
                    let r: Vec<String> = Vec::new();
                    assert(string_views(r@) =~= Seq::<Seq<char>>::empty());
                    r
                },
            },
            None => self.package_file(stem),
        }
    }

    /// The candidate files for `name`, in the order they are tried.
    fn candidate_files(&self, name: &str, version: Option<&str>, base: &str) -> (r: Vec<String>)
        ensures
            string_views(r@) == file_candidates(self@, name@, match version {
                Some(v) => Some(v@),
                None => None,
            }, base@),
    {
        let t = string_of(trim_chars(chars_of(name).as_slice()).as_slice());
        let stem = match file_name(t.as_str()) {
            Some(n) => n,
            None => t.clone(),
        };
        let mut r = existing_candidate_list(t.as_str(), base);
        if !crate::text::str_equals(stem.as_str(), t.as_str()) {
            append_strings(&mut r, existing_candidate_list(stem.as_str(), base));
        } else {
            assert(string_views(r@) =~= string_views(r@) + Seq::<Seq<char>>::empty());
        }
        append_strings(&mut r, self.maxpack_files(stem.as_str(), version));
        if version.is_none() {
            append_strings(&mut r, self.package_file(stem.as_str()));
        } else {
            assert(string_views(r@) =~= string_views(r@) + Seq::<Seq<char>>::empty());
        }
        r
    }
}


/// Whether some string in `v` has the view `x`.
fn contains_view(v: &Vec<String>, x: &String) -> (b: bool)
    ensures
        b == string_views(v@).contains(x@),
{
    let mut i: usize = 0;
    while i < v.len()
        invariant
            i <= v@.len(),
            forall|j: int| 0 <= j < i ==> v@[j]@ != x@,
        decreases v@.len() - i,
    {
        if v[i] == *x {
            assert(string_views(v@)[i as int] == x@);
            return true;
        }
        i = i + 1;
    }
    assert forall|j: int| 0 <= j < string_views(v@).len() implies string_views(v@)[j] != x@ by {
        assert(string_views(v@)[j] == v@[j]@);
    }
    false
}

/// Whether a directory entry that is not a directory is a candidate.
fn entry_is_candidate(e: &str, stem: &str, exts: &Vec<String>) -> (b: bool)
    ensures
        b == entry_matches(e@, stem@, string_views(exts@)),
{
    let s = match file_stem(e) {
        Some(x) => x,
        None => String::new(),
    };
    if !crate::text::str_equals(s.as_str(), stem) {
        return false;
    }
    match extension(e) {
        Some(x) => {
            let mut dotted = String::new();
            crate::text::push_char(&mut dotted, '.');
            append_str(&mut dotted, x.as_str());
            assert(dotted@ =~= seq!['.'] + x@);
            contains_view(exts, &dotted)
        },
        None => false,
    }
}

/// The tasks for a template whose directory exists.
fn template_task_list(t: &SearchTemplate, stem: &str, i: usize) -> (r: Vec<SearchTask>)
    ensures
        task_views(r@) == template_tasks(t@, stem@, i as int),
{
    let mut r: Vec<SearchTask> = Vec::new();
    let ghost ev = string_views(t.extensions@);
    let mut k: usize = 0;
    assert(task_views(r@) =~= template_files(t@, stem@, ev.subrange(0, 0)));
    while k < t.extensions.len()
        invariant
            k <= t.extensions@.len(),
            ev == string_views(t.extensions@),
            task_views(r@) == template_files(t@, stem@, ev.subrange(0, k as int)),
        decreases t.extensions@.len() - k,
    {
        let mut file = String::from_str(stem);
        append_str(&mut file, t.extensions[k].as_str());
        let direct = join(t.root.as_str(), file.as_str());
        let nested = join(join(t.root.as_str(), stem).as_str(), file.as_str());
        let ghost before = task_views(r@);
        let ghost dv = direct@;
        let ghost nv = nested@;
        r.push(SearchTask::File(direct));
        r.push(SearchTask::File(nested));
        let ghost sub = ev.subrange(0, k + 1);
        assert(sub.drop_last() =~= ev.subrange(0, k as int));
        assert(sub.last() == t.extensions@[k as int]@);
        assert(task_views(r@) =~= before + seq![TaskView::File(dv), TaskView::File(nv)]);
        k = k + 1;
    }
    assert(ev.subrange(0, ev.len() as int) =~= ev);
    if t.recursive {
        let ghost before = task_views(r@);
        r.push(SearchTask::Dir(t.root.clone(), i));
        assert(task_views(r@) =~= before + seq![TaskView::Dir(t.root@, i as int)]);
    } else {
        assert(task_views(r@) =~= task_views(r@) + Seq::<TaskView>::empty());
    }
    r
}

/// A search for `package` (at `version`) from `base`: answered at once
/// from the cache, or at once with nothing for a blank name, or else with
/// the initial tasks on its stack, the first on top.
pub open spec fn start_search(
    r: PathResolverView,
    package: Seq<char>,
    version: Option<Seq<char>>,
    base: Seq<char>,
) -> PathSearchView {
    let key = cache_key(base, package, version);
    let fresh = PathSearchView {
        key,
        stem: stem_of(trim(package)),
        templates: r.templates,
        tasks: Seq::empty(),
        pending: None,
        outcome: None,
    };
    if r.cache.contains_key(key) {
        PathSearchView { outcome: Some(Some(r.cache[key])), ..fresh }
    } else if trim(package).len() == 0 {
        PathSearchView { outcome: Some(None), ..fresh }
    } else {
        PathSearchView { tasks: initial_tasks(r, package, version, base).reverse(), ..fresh }
    }
}

/// The resolver after remembering what search `s` found: a path found is
/// kept for the search's name, version and directory, unless one is kept
/// for them already (a remembered path is never replaced).
pub open spec fn remembered(r: PathResolverView, s: PathSearchView) -> PathResolverView {
    match s.outcome {
        Some(Some(p)) => if r.cache.contains_key(s.key) {
            r
        } else {
            PathResolverView { cache: r.cache.insert(s.key, p), ..r }
        },
        _ => r,
    }
}

impl PathResolver {
    /// Starts resolving `package` (at `version`, if given) for a file in
    /// `base_dir`. A name resolved before is answered from the cache; a
    /// blank name resolves to nothing.
    pub fn resolve_import(&self, package: &str, version: Option<&str>, base_dir: &str) -> (s:
        PathSearch)
        ensures
            s@ == start_search(self@, package@, match version {
                Some(v) => Some(v@),
                None => None,
            }, base_dir@),
    {
        let ghost ver = match version {
            Some(v) => Some(v@),
            None => None,
        };
        let mut key = String::from_str(base_dir);
        append_str(&mut key, "::");
        append_str(&mut key, package);
        append_str(&mut key, "::");
        match version {
            Some(v) => append_str(&mut key, v),
            None => {},
        }
        assert(key@ =~= cache_key(base_dir@, package@, ver));
        let t = string_of(trim_chars(chars_of(package).as_slice()).as_slice());
        let stem = match file_name(t.as_str()) {
            Some(n) => n,
            None => t.clone(),
        };
        let templates = clone_templates(&self.templates);
        let mut search = PathSearch {
            key,
            stem,
            templates,
            tasks: Vec::new(),
            pending: None,
            outcome: None,
        };
        match self.cache.get(search.key.as_str()) {
            Some(hit) => {
                search.outcome = Some(Some(hit.clone()));
                assert(task_views(search.tasks@) =~= Seq::<TaskView>::empty());
                return search;
            },
            None => {},
        }
        let tc = chars_of(t.as_str());
        if tc.len() == 0 {
            search.outcome = Some(None);
            assert(task_views(search.tasks@) =~= Seq::<TaskView>::empty());
            return search;
        }
        let files = self.candidate_files(package, version, base_dir);
        let ghost fv = string_views(files@);
        let mut items: Vec<SearchTask> = Vec::new();
        let mut i: usize = 0;
        while i < files.len()
            invariant
                i <= files@.len(),
                fv == string_views(files@),
                task_views(items@) == fv.subrange(0, i as int).map_values(
                    |p: Seq<char>| TaskView::File(p),
                ),
            decreases files@.len() - i,
        {
            let ghost before = task_views(items@);
            let f = files[i].clone();
            assert(f@ == fv[i as int]);
            items.push(SearchTask::File(f));
            assert(task_views(items@) =~= before.push(TaskView::File(fv[i as int])));
            assert(fv.subrange(0, i + 1).map_values(|p: Seq<char>| TaskView::File(p)) =~= fv.subrange(
                0,
                i as int,
            ).map_values(|p: Seq<char>| TaskView::File(p)).push(TaskView::File(fv[i as int])));
            i = i + 1;
        }
        assert(fv.subrange(0, fv.len() as int) =~= fv);
        let ghost a = task_views(items@);
        if self.maxima_cmd.is_some() {
            items.push(SearchTask::Maxima);
            assert(task_views(items@) =~= a + seq![TaskView::Maxima]);
        } else {
            assert(task_views(items@) =~= a + Seq::<TaskView>::empty());
        }
        let ghost b = task_views(items@);
        let n = self.templates.len();
        let mut j: usize = 0;
        while j < n
            invariant
                j <= n,
                n == self@.templates.len(),
                task_views(items@) == b + Seq::new(j as nat, |k: int| TaskView::Template(k)),
            decreases n - j,
        {
            let ghost before = task_views(items@);
            items.push(SearchTask::Template(j));
            assert(task_views(items@) =~= before.push(TaskView::Template(j as int)));
            j = j + 1;
            assert(task_views(items@) =~= b + Seq::new(j as nat, |k: int| TaskView::Template(k)));
        }
        assert(task_views(items@) =~= initial_tasks(self@, package@, ver, base_dir@));
        push_task_list(&mut search.tasks, items);
        assert(task_views(search.tasks@) =~= initial_tasks(self@, package@, ver, base_dir@).reverse());
        search
    }

    /// Starts resolving `name` for a file in `base_dir`, with no version.
    pub fn resolve(&self, name: &str, base_dir: &str) -> (s: PathSearch)
        ensures
            s@ == start_search(self@, name@, None, base_dir@),
    {
        self.resolve_import(name, None, base_dir)
    }

    /// Remembers what a finished search found, so that the same name from
    /// the same directory is not searched again; a path already remembered
    /// for them is kept.
    pub fn remember(&mut self, search: &PathSearch)
        ensures
            final(self)@ == remembered(old(self)@, search@),
    {
        match &search.outcome {
            Some(Some(p)) => {
                if self.cache.contains_key(search.key.as_str()) {
                    assert(string_map_view(self.cache.map()).contains_key(search.key@));
                    return;
                }
                let ghost before = self.cache.map();
                self.cache.insert(search.key.clone(), p.clone());
                assert(string_map_view(self.cache.map()) =~= string_map_view(before).insert(
                    search.key@,
                    p@,
                ));
            },
            _ => {},
        }
    }
}

impl PathSearch {
    /// What the search asks next: the probe of the task under way, or of
    /// the next task on the stack; or its result when it is done or has run
    /// out of tasks.
    pub fn next_step(&mut self) -> (r: SearchStep)
        ensures
            (final(self)@, r@) == next_of(old(self)@),
    {
        match &self.outcome {
            Some(o) => {
                return SearchStep::Done(clone_opt(o));
            },
            None => {},
        }
        if self.pending.is_none() {
            if self.tasks.len() == 0 {
                self.outcome = Some(None);
                return SearchStep::Done(None);
            }
            let ghost ts = self.tasks@;
            let t = self.tasks.pop().unwrap();
            assert(task_views(self.tasks@) =~= task_views(ts).drop_last());
            self.pending = Some(t);
        }
        let probe = match &self.pending {
            Some(SearchTask::File(p)) => Probe::IsFile(p.clone()),
            Some(SearchTask::Maxima) => Probe::RunMaxima(file_search_script(self.stem.as_str())),
            Some(SearchTask::Template(i)) => Probe::IsDir(
                if *i < self.templates.len() {
                    self.templates[*i].root.clone()
                } else {
                    String::new()
                },
            ),
            Some(SearchTask::Dir(d, _)) => Probe::ListDir(d.clone()),
            Some(SearchTask::Entry(e, _)) => Probe::IsDir(e.clone()),
            Some(SearchTask::EntryFile(e)) => Probe::IsFile(e.clone()),
            None => Probe::IsFile(String::new()),
        };
        SearchStep::Probe(probe)
    }

    /// Takes the answer to the probe of the task under way.
    pub fn answer(&mut self, a: ProbeAnswer)
        ensures
            old(self)@.pending matches Some(t) ==> final(self)@ == after_answer(
                PathSearchView { pending: None, ..old(self)@ },
                t,
                a@,
            ),
            old(self)@.pending is None ==> final(self)@ == old(self)@,
    {
        let t = match self.pending.take() {
            Some(t) => t,
            None => {
                return;
            },
        };
        let ghost s0 = self@;
        match t {
            SearchTask::File(p) => {
                match a {
                    ProbeAnswer::Flag(true) => {
                        self.outcome = Some(Some(p));
                    },
                    _ => {},
                }
            },
            SearchTask::Maxima => {
                match a {
                    ProbeAnswer::Output(o) => {
                        let paths = maxima_output_paths(o.as_str());
                        let ghost pv = string_views(paths@);
                        let mut items: Vec<SearchTask> = Vec::new();
                        let mut i: usize = 0;
                        while i < paths.len()
                            invariant
                                i <= paths@.len(),
                                pv == string_views(paths@),
                                task_views(items@) == pv.subrange(0, i as int).map_values(
                                    |p: Seq<char>| TaskView::File(p),
                                ),
                            decreases paths@.len() - i,
                        {
                            let ghost before = task_views(items@);
                            let f = paths[i].clone();
                            assert(f@ == pv[i as int]);
                            items.push(SearchTask::File(f));
                            assert(task_views(items@) =~= before.push(TaskView::File(pv[i as int])));
                            assert(pv.subrange(0, i + 1).map_values(
                                |p: Seq<char>| TaskView::File(p),
                            ) =~= pv.subrange(0, i as int).map_values(
                                |p: Seq<char>| TaskView::File(p),
                            ).push(TaskView::File(pv[i as int])));
                            i = i + 1;
                        }
                        assert(pv.subrange(0, pv.len() as int) =~= pv);
                        push_task_list(&mut self.tasks, items);
                    },
                    _ => {},
                }
            },
            SearchTask::Template(i) => {
                match a {
                    ProbeAnswer::Flag(true) => {
                        if i < self.templates.len() {
                            let items = template_task_list(&self.templates[i], self.stem.as_str(), i);
                            push_task_list(&mut self.tasks, items);
                        }
                    },
                    _ => {},
                }
            },
            SearchTask::Dir(_, i) => {
                match a {
                    ProbeAnswer::Entries(es) => {
                        let ghost ev = string_views(es@);
                        let mut items: Vec<SearchTask> = Vec::new();
                        let mut k: usize = 0;
                        while k < es.len()
                            invariant
                                k <= es@.len(),
                                ev == string_views(es@),
                                task_views(items@) == ev.subrange(0, k as int).map_values(
                                    |e: Seq<char>| TaskView::Entry(e, i as int),
                                ),
                            decreases es@.len() - k,
                        {
                            let ghost before = task_views(items@);
                            let f = es[k].clone();
                            assert(f@ == ev[k as int]);
                            items.push(SearchTask::Entry(f, i));
                            assert(task_views(items@) =~= before.push(
                                TaskView::Entry(ev[k as int], i as int),
                            ));
                            assert(ev.subrange(0, k + 1).map_values(
                                |e: Seq<char>| TaskView::Entry(e, i as int),
                            ) =~= ev.subrange(0, k as int).map_values(
                                |e: Seq<char>| TaskView::Entry(e, i as int),
                            ).push(TaskView::Entry(ev[k as int], i as int)));
                            k = k + 1;
                        }
                        assert(ev.subrange(0, ev.len() as int) =~= ev);
                        push_task_list(&mut self.tasks, items);
                    },
                    _ => {},
                }
            },
            SearchTask::Entry(e, i) => {
                match a {
                    ProbeAnswer::Flag(true) => {
                        let ghost before = task_views(self.tasks@);
                        let ghost ev = e@;
                        self.tasks.push(SearchTask::Dir(e, i));
                        assert(task_views(self.tasks@) =~= before + seq![
                            TaskView::Dir(ev, i as int),
                        ].reverse());
                    },
                    ProbeAnswer::Flag(false) => {
                        if i < self.templates.len() && entry_is_candidate(
                            e.as_str(),
                            self.stem.as_str(),
                            &self.templates[i].extensions,
                        ) {
                            let ghost before = task_views(self.tasks@);
                            let ghost ev = e@;
                            self.tasks.push(SearchTask::EntryFile(e));
                            assert(task_views(self.tasks@) =~= before + seq![
                                TaskView::EntryFile(ev),
                            ].reverse());
                        }
                    },
                    _ => {},
                }
            },
            SearchTask::EntryFile(e) => {
                match a {
                    ProbeAnswer::Flag(true) => {
                        self.outcome = Some(Some(e));
                    },
                    _ => {},
                }
            },
        }
    }

    /// The result, once the search is done.
    pub fn outcome(&self) -> (r: Option<Option<String>>)
        ensures
            opt_outcome(r) == self@.outcome,
    {
        match &self.outcome {
            Some(o) => Some(clone_opt(o)),
            None => None,
        }
    }
}


// ---------------------------------------------------------------------
// Discovery helpers

/// The files that can start a maxpack package installed in `pkg_dir`, in
/// the order they are tried.
pub open spec fn package_start_files(pkg_dir: Seq<char>, pkg_name: Seq<char>) -> Seq<Seq<char>> {
    let latest = join_spec(join_spec(pkg_dir, "latest"@), "src"@);
    seq![
        join_spec(latest, "init.mac"@),
        join_spec(latest, pkg_name + ".mac"@),
        join_spec(latest, "init.lisp"@),
        join_spec(join_spec(pkg_dir, "src"@), "init.mac"@),
    ]
}

/// The files that can start a maxpack package installed in `pkg_dir`.
pub fn package_start_candidates(pkg_dir: &str, pkg_name: &str) -> (r: Vec<String>)
    ensures
        string_views(r@) == package_start_files(pkg_dir@, pkg_name@),
{
    let latest = join(join(pkg_dir, "latest").as_str(), "src");
    let mut named = String::from_str(pkg_name);
    append_str(&mut named, ".mac");
    let mut r: Vec<String> = Vec::new();
    r.push(join(latest.as_str(), "init.mac"));
    r.push(join(latest.as_str(), named.as_str()));
    r.push(join(latest.as_str(), "init.lisp"));
    r.push(join(join(pkg_dir, "src").as_str(), "init.mac"));
    assert(string_views(r@) =~= package_start_files(pkg_dir@, pkg_name@));
    r
}

/// Whether a directory under the maxpack root names a package: not hidden
/// and not one of `repo`, `bin` and `.tmp`.
pub open spec fn is_package_dir_name(name: Seq<char>) -> bool {
    !starts_with(name, "."@) && name != "repo"@ && name != "bin"@ && name != ".tmp"@
}

/// Whether a directory under the maxpack root names a package.
pub fn is_package_dir(name: &str) -> (b: bool)
    ensures
        b == is_package_dir_name(name@),
{
    let c = chars_of(name);
    let dot = chars_of(".");
    !has_prefix(c.as_slice(), dot.as_slice()) && !crate::text::str_equals(name, "repo")
        && !crate::text::str_equals(name, "bin") && !crate::text::str_equals(name, ".tmp")
}

/// The templates used when Maxima reports none: the user directory,
/// searched recursively for `.mac`, `.lisp` and `.wxm` files.
pub open spec fn fallback_templates_of(userdir: Seq<char>) -> Seq<SearchTemplateView> {
    seq![
        SearchTemplateView { root: userdir, recursive: true, extensions: seq![".mac"@] },
        SearchTemplateView { root: userdir, recursive: true, extensions: seq![".lisp"@] },
        SearchTemplateView { root: userdir, recursive: true, extensions: seq![".wxm"@] },
    ]
}

/// The fallback templates for an existing user directory.
pub fn fallback_templates(userdir: &str) -> (r: Vec<SearchTemplate>)
    ensures
        template_views(r@) == fallback_templates_of(userdir@),
{
    let mut r: Vec<SearchTemplate> = Vec::new();
    let mut e1: Vec<String> = Vec::new();
    e1.push(String::from_str(".mac"));
    let mut e2: Vec<String> = Vec::new();
    e2.push(String::from_str(".lisp"));
    let mut e3: Vec<String> = Vec::new();
    e3.push(String::from_str(".wxm"));
    assert(string_views(e1@) =~= seq![".mac"@]);
    assert(string_views(e2@) =~= seq![".lisp"@]);
    assert(string_views(e3@) =~= seq![".wxm"@]);
    r.push(SearchTemplate { root: String::from_str(userdir), recursive: true, extensions: e1 });
    r.push(SearchTemplate { root: String::from_str(userdir), recursive: true, extensions: e2 });
    r.push(SearchTemplate { root: String::from_str(userdir), recursive: true, extensions: e3 });
    assert(template_views(r@) =~= fallback_templates_of(userdir@));
    r
}

// ---------------------------------------------------------------------
// Scanning the maxpack root for packages

/// Where a scan of the maxpack root is.
#[derive(Clone, Copy, Debug, PartialEq, Eq, Structural)]
pub enum ScanPhase {
    /// Asking whether the root is a directory.
    CheckRoot,
    /// Asking for the root's entries.
    ListRoot,
    /// Asking whether the entry at this index is a directory.
    Entry(usize),
    /// Asking whether this start file (by index) of the entry at this index
    /// is a file.
    Candidate(usize, usize),
    /// Done.
    Finished,
}

/// What a scan knows.
pub struct ScanView {
    pub root: Seq<char>,
    pub entries: Seq<Seq<char>>,
    pub phase: ScanPhase,
    pub packages: Map<Seq<char>, Seq<char>>,
}

/// The scan of a maxpack root for installed packages: each directory entry
/// that names a package is mapped to the first of its start files that
/// exists. The caller asks for the next probe, answers it, and repeats
/// until there is none.
pub struct PackageScan {
    root: String,
    entries: Vec<String>,
    phase: ScanPhase,
    packages: NameMap<String>,
}

impl View for PackageScan {
    type V = ScanView;

    closed spec fn view(&self) -> ScanView {
        ScanView {
            root: self.root@,
            entries: string_views(self.entries@),
            phase: self.phase,
            packages: string_map_view(self.packages.map()),
        }
    }
}

/// The package name of the entry at `i`, when the entry names a package.
pub open spec fn entry_package(v: ScanView, i: int) -> Option<Seq<char>> {
    if 0 <= i < v.entries.len() {
        match file_name_spec(v.entries[i]) {
            Some(n) => if is_package_dir_name(n) {
                Some(n)
            } else {
                None
            },
            None => None,
        }
    } else {
        None
    }
}

/// The start files of the entry at `i`.
pub open spec fn entry_candidates(v: ScanView, i: int) -> Seq<Seq<char>> {
    match entry_package(v, i) {
        Some(n) => package_start_files(v.entries[i], n),
        None => Seq::empty(),
    }
}

/// The probe a scan asks next, if any.
pub open spec fn scan_probe(v: ScanView) -> Option<ProbeView> {
    match v.phase {
        ScanPhase::CheckRoot => Some(ProbeView::IsDir(v.root)),
        ScanPhase::ListRoot => Some(ProbeView::ListDir(v.root)),
        ScanPhase::Entry(i) => if i < v.entries.len() {
            Some(ProbeView::IsDir(v.entries[i as int]))
        } else {
            None
        },
        ScanPhase::Candidate(i, j) => if j < entry_candidates(v, i as int).len() {
            Some(ProbeView::IsFile(entry_candidates(v, i as int)[j as int]))
        } else {
            None
        },
        ScanPhase::Finished => None,
    }
}

/// The scan after the answer `a` to its probe: a root that is no directory
/// ends it; the root's entries are then tried in order; an entry that is a
/// directory naming a package has its start files tried in order, the first
/// that is a file becoming the package's; then the next entry is tried.
pub open spec fn scan_after(v: ScanView, a: AnswerView) -> ScanView {
    match v.phase {
        ScanPhase::CheckRoot => if a == AnswerView::Flag(true) {
            ScanView { phase: ScanPhase::ListRoot, ..v }
        } else {
            ScanView { phase: ScanPhase::Finished, ..v }
        },
        ScanPhase::ListRoot => match a {
            AnswerView::Entries(es) => ScanView { entries: es, phase: ScanPhase::Entry(0), ..v },
            _ => ScanView { phase: ScanPhase::Finished, ..v },
        },
        ScanPhase::Entry(i) => if i < v.entries.len() && a == AnswerView::Flag(true) && entry_package(
            v,
            i as int,
        ) is Some {
            ScanView { phase: ScanPhase::Candidate(i, 0), ..v }
        } else if i < v.entries.len() {
            ScanView { phase: ScanPhase::Entry((i + 1) as usize), ..v }
        } else {
            v
        },
        ScanPhase::Candidate(i, j) => if j < entry_candidates(v, i as int).len() {
            if a == AnswerView::Flag(true) {
                ScanView {
                    packages: v.packages.insert(
                        entry_package(v, i as int)->0,
                        entry_candidates(v, i as int)[j as int],
                    ),
                    phase: ScanPhase::Entry((i + 1) as usize),
                    ..v
                }
            } else if j + 1 < entry_candidates(v, i as int).len() {
                ScanView { phase: ScanPhase::Candidate(i, (j + 1) as usize), ..v }
            } else {
                ScanView { phase: ScanPhase::Entry((i + 1) as usize), ..v }
            }
        } else {
            v
        },
        ScanPhase::Finished => v,
    }
}

impl PackageScan {
    /// A scan of the maxpack root `root`.
    pub fn start(root: &str) -> (s: PackageScan)
        ensures
            s@ == (ScanView {
                root: root@,
                entries: Seq::empty(),
                phase: ScanPhase::CheckRoot,
                packages: Map::empty(),
            }),
    {
        let s = PackageScan {
            root: String::from_str(root),
            entries: Vec::new(),
            phase: ScanPhase::CheckRoot,
            packages: NameMap::new(),
        };
        assert(s@.entries =~= Seq::<Seq<char>>::empty());
        assert(s@.packages =~= Map::<Seq<char>, Seq<char>>::empty());
        s
    }

    /// The package name of the entry at `i`, when it names a package.
    fn package_of(&self, i: usize) -> (r: Option<String>)
        ensures
            r matches Some(n) ==> entry_package(self@, i as int) == Some(n@),
            r is None ==> entry_package(self@, i as int) is None,
    {
        if i >= self.entries.len() {
            return None;
        }
        match file_name(self.entries[i].as_str()) {
            Some(n) => if is_package_dir(n.as_str()) {
                Some(n)
            } else {
                None
            },
            None => None,
        }
    }

    /// The start files of the entry at `i`.
    fn candidates_of(&self, i: usize) -> (r: Vec<String>)
        ensures
            string_views(r@) == entry_candidates(self@, i as int),
    {
        match self.package_of(i) {
            Some(n) => package_start_candidates(self.entries[i].as_str(), n.as_str()),
            None => {
                let r: Vec<String> = Vec::new();
                assert(string_views(r@) =~= Seq::<Seq<char>>::empty());
                r
            },
        }
    }

    /// The probe the scan asks next; `None` once it is done.
    pub fn next_probe(&self) -> (r: Option<Probe>)
        ensures
            r matches Some(p) ==> scan_probe(self@) == Some(p@),
            r is None ==> scan_probe(self@) is None,
    {
        match self.phase {
            ScanPhase::CheckRoot => Some(Probe::IsDir(self.root.clone())),
            ScanPhase::ListRoot => Some(Probe::ListDir(self.root.clone())),
            ScanPhase::Entry(i) => if i < self.entries.len() {
                Some(Probe::IsDir(self.entries[i].clone()))
            } else {
                None
            },
            ScanPhase::Candidate(i, j) => {
                let c = self.candidates_of(i);
                if j < c.len() {
                    Some(Probe::IsFile(c[j].clone()))
                } else {
                    None
                }
            },
            ScanPhase::Finished => None,
        }
    }

    /// Takes the answer to the probe asked last.
    pub fn answer(&mut self, a: ProbeAnswer)
        ensures
            final(self)@ == scan_after(old(self)@, a@),
    {
        match self.phase {
            ScanPhase::CheckRoot => {
                match a {
                    ProbeAnswer::Flag(true) => {
                        self.phase = ScanPhase::ListRoot;
                    },
                    _ => {
                        self.phase = ScanPhase::Finished;
                    },
                }
            },
            ScanPhase::ListRoot => {
                match a {
                    ProbeAnswer::Entries(es) => {
                        self.entries = es;
                        self.phase = ScanPhase::Entry(0);
                    },
                    _ => {
                        self.phase = ScanPhase::Finished;
                    },
                }
            },
            ScanPhase::Entry(i) => {
                if i < self.entries.len() {
                    let is_dir = match a {
                        ProbeAnswer::Flag(b) => b,
                        _ => false,
                    };
                    if is_dir && self.package_of(i).is_some() {
                        self.phase = ScanPhase::Candidate(i, 0);
                    } else {
                        self.phase = ScanPhase::Entry(i + 1);
                    }
                }
            },
            ScanPhase::Candidate(i, j) => {
                let c = self.candidates_of(i);
                if j < c.len() {
                    assert(entry_package(self@, i as int) is Some);
                    assert(i < self.entries.len());
                    let found = match a {
                        ProbeAnswer::Flag(b) => b,
                        _ => false,
                    };
                    if found {
                        let name = match self.package_of(i) {
                            Some(n) => n,
                            None => String::new(),
                        };
                        let ghost before = self.packages.map();
                        self.packages.insert(name, c[j].clone());
                        assert(string_map_view(self.packages.map()) =~= string_map_view(before).insert(
                            entry_package(old(self)@, i as int)->0,
                            entry_candidates(old(self)@, i as int)[j as int],
                        ));
                        self.phase = ScanPhase::Entry(i + 1);
                    } else if j + 1 < c.len() {
                        self.phase = ScanPhase::Candidate(i, j + 1);
                    } else {
                        self.phase = ScanPhase::Entry(i + 1);
                    }
                }
            },
            ScanPhase::Finished => {},
        }
    }

    /// The packages found so far, by name.
    pub fn packages(self) -> (r: NameMap<String>)
        ensures
            string_map_view(r.map()) == self@.packages,
    {
        self.packages
    }
}

} // verus!
