//! The modules a source loads: `load`, `batch`, `batchload` and `import`
//! calls in Maxima trees, `(load ...)` forms in Common Lisp trees, and the
//! load target under a position.

use vstd::prelude::*;
use vstd::string::StringSliceAdditionalSpecFns;
use crate::definitions::{
    descent, descent_path, extract_load_argument, load_argument, named_child, named_child_count, named_child_of,
    named_count, non_empty,
};
use crate::definitions::{collect_definitions_from_source, definitions_result};
use crate::docs::string_views;
use crate::docstring::{docstrings_result, extract_docstrings, ExternalDoc, ExternalDocView};
use crate::lisp_extractor::{
    collect_lisp_defs, extract_lisp_docs, external_views, lisp_docs_result, lisp_locations_result, opt_view,
};
use crate::lsp::{file_url, file_url_of, location_views, Location, LocationView};
use crate::name_map::{entries_map, lemma_entries_map_keys, NameMap};
use crate::pathname::{
    components, extension, extension_spec, is_absolute_spec, parent, parent_spec, same_path,
};
use crate::paths::AnswerView;
use crate::paths::{
    next_of, opt_str, remembered, start_search, PathResolver, PathResolverView, PathSearch,
    PathSearchView, Probe, ProbeAnswer, ProbeView, SearchStep, StepView,
};
use crate::parse::{accepted, lisp_parse_of, parse_commonlisp, parse_of, parse_with};
use vstd::utf8::encode_utf8;
use crate::syntax::{
    child, child_at, derefs, kind_is, node_text, node_text_of, preorder, preorder_nodes, span_of,
    text_range, SyntaxNode, TextRange,
};
use crate::text::{
    chars_of, lowercase_of, str_equals, string_of, to_lowercase, trim_char, trim_matches,
};

verus! {

/// What an import names.
pub struct ImportSpecView {
    pub package: Seq<char>,
    pub version: Option<Seq<char>>,
}

/// A module that a source loads, with the version it asks for.
#[derive(Debug)]
pub struct ImportSpec {
    pub package: String,
    pub version: Option<String>,
}

impl View for ImportSpec {
    type V = ImportSpecView;

    open spec fn view(&self) -> ImportSpecView {
        ImportSpecView {
            package: self.package@,
            version: match self.version {
                Some(v) => Some(v@),
                None => None,
            },
        }
    }
}

impl ImportSpec {
    /// A copy of this import.
    pub fn duplicate(&self) -> (s: ImportSpec)
        ensures
            s@ == self@,
    {
        ImportSpec {
            package: self.package.clone(),
            version: match &self.version {
                Some(v) => Some(v.clone()),
                None => None,
            },
        }
    }
}

/// The views of a sequence of imports.
pub open spec fn import_views(v: Seq<ImportSpec>) -> Seq<ImportSpecView> {
    v.map_values(|s: ImportSpec| s@)
}

/// Whether a function loads a module: `load`, `batch`, `batchload` or
/// `import`.
pub open spec fn is_import_function(name: Seq<char>) -> bool {
    name == "load"@ || name == "batch"@ || name == "batchload"@ || name == "import"@
}

/// Whether `name` is one of the loading functions.
pub fn import_function(name: &str) -> (b: bool)
    ensures
        b == is_import_function(name@),
{
    str_equals(name, "load") || str_equals(name, "batch") || str_equals(name, "batchload")
        || str_equals(name, "import")
}

/// The name of the function a call node calls: the text of its first named
/// child, or, when that is an atom, of the atom's first named child (or
/// first child).
pub open spec fn call_name_of(src: Seq<u8>, n: SyntaxNode) -> Option<Seq<char>> {
    match named_child_of(n, 0) {
        Some(f) => {
            let target = if f.kind@ == "atom"@ {
                match named_child_of(f, 0) {
                    Some(x) => Some(x),
                    None => child_at(f, 0),
                }
            } else {
                Some(f)
            };
            match target {
                Some(t) => node_text_of(src, t),
                None => None,
            }
        },
        None => None,
    }
}

/// The name of the function that call node `n` calls.
pub fn call_name(n: &SyntaxNode, source: &str) -> (r: Option<String>)
    ensures
        r matches Some(s) ==> call_name_of(source.spec_bytes(), *n) == Some(s@),
        r is None ==> call_name_of(source.spec_bytes(), *n) is None,
{
    let f = match named_child(n, 0) {
        Some(f) => f,
        None => {
            return None;
        },
    };
    let target = if kind_is(f, "atom") {
        match named_child(f, 0) {
            Some(x) => Some(x),
            None => child(f, 0),
        }
    } else {
        Some(f)
    };
    match target {
        Some(t) => node_text(source.as_bytes(), t),
        None => None,
    }
}

/// The first module named by the named children of `n` from the one at
/// `from` on; the search stops at a missing child.
pub open spec fn first_load_in(src: Seq<u8>, n: SyntaxNode, from: int) -> Option<Seq<char>>
    decreases named_count(n.children@) - from,
{
    if from < 0 || from >= named_count(n.children@) {
        None
    } else {
        match named_child_of(n, from) {
            None => None,
            Some(ch) => match load_argument(src, ch) {
                Some(v) => Some(v),
                None => first_load_in(src, n, from + 1),
            },
        }
    }
}

/// The version a list argument such as `["1.0.0"]` gives.
pub open spec fn version_argument(src: Seq<u8>, n: SyntaxNode) -> Option<Seq<char>> {
    if n.kind@ == "list"@ {
        first_load_in(src, n, 0)
    } else {
        None
    }
}

/// The version that a list argument of an import gives.
pub fn extract_version_argument(node: &SyntaxNode, source: &str) -> (r: Option<String>)
    ensures
        r matches Some(s) ==> version_argument(source.spec_bytes(), *node) == Some(s@),
        r is None ==> version_argument(source.spec_bytes(), *node) is None,
{
    if !kind_is(node, "list") {
        return None;
    }
    let nc = named_child_count(node);
    let mut ci: usize = 0;
    while ci < nc
        invariant
            ci <= nc,
            nc == named_count(node.children@),
            version_argument(source.spec_bytes(), *node) == first_load_in(
                source.spec_bytes(),
                *node,
                ci as int,
            ),
        decreases nc - ci,
    {
        let ch = match named_child(node, ci) {
            Some(ch) => ch,
            None => {
                return None;
            },
        };
        match extract_load_argument(ch, source) {
            Some(v) => {
                return Some(v);
            },
            None => {},
        }
        ci = ci + 1;
    }
    None
}

/// The package and version gathered from the named arguments of a call
/// before the one at `upto`: the first argument naming a module is the
/// package; an argument after which no version is known yet, and that is
/// not taken as the package, gives the version.
pub open spec fn import_scan(src: Seq<u8>, n: SyntaxNode, upto: int) -> (
    Option<Seq<char>>,
    Option<Seq<char>>,
)
    decreases upto,
{
    if upto <= 1 {
        (None, None)
    } else {
        let (p, v) = import_scan(src, n, upto - 1);
        match named_child_of(n, upto - 1) {
            None => (p, v),
            Some(ch) => if p is None && load_argument(src, ch) is Some {
                (load_argument(src, ch), v)
            } else if v is None {
                (p, version_argument(src, ch))
            } else {
                (p, v)
            },
        }
    }
}

/// The import that call node `n` makes: a call of a loading function with
/// an argument that names a module.
pub open spec fn import_of_call(src: Seq<u8>, n: SyntaxNode) -> Option<ImportSpecView> {
    match call_name_of(src, n) {
        Some(f) => if is_import_function(f) {
            let (p, v) = import_scan(src, n, named_count(n.children@) as int);
            match p {
                Some(p) => Some(ImportSpecView { package: p, version: v }),
                None => None,
            }
        } else {
            None
        },
        None => None,
    }
}

/// The import that the call node `node` makes, if it loads a module.
pub fn extract_import_from_call(node: &SyntaxNode, source: &str) -> (r: Option<ImportSpec>)
    ensures
        r matches Some(s) ==> import_of_call(source.spec_bytes(), *node) == Some(s@),
        r is None ==> import_of_call(source.spec_bytes(), *node) is None,
{
    let fname = match call_name(node, source) {
        Some(f) => f,
        None => {
            return None;
        },
    };
    if !import_function(fname.as_str()) {
        return None;
    }
    let ghost src = source.spec_bytes();
    let mut package: Option<String> = None;
    let mut version: Option<String> = None;
    let nc = named_child_count(node);
    let mut ci: usize = 1;
    while ci < nc
        invariant
            1 <= ci,
            ci <= nc || ci == 1,
            nc == named_count(node.children@),
            src == source.spec_bytes(),
            import_scan(src, *node, ci as int) == (opt_view(package), opt_view(version)),
        decreases nc - ci,
    {
        match named_child(node, ci) {
            None => {},
            Some(ch) => {
                let mut taken = false;
                if package.is_none() {
                    match extract_load_argument(ch, source) {
                        Some(raw) => {
                            package = Some(raw);
                            taken = true;
                        },
                        None => {},
                    }
                }
                if !taken && version.is_none() {
                    version = extract_version_argument(ch, source);
                }
            },
        }
        ci = ci + 1;
    }
    assert(nc <= 1 ==> import_scan(src, *node, nc as int) == import_scan(src, *node, 1));
    assert(import_scan(src, *node, nc as int) == (opt_view(package), opt_view(version)));
    match package {
        Some(p) => Some(ImportSpec { package: p, version }),
        None => None,
    }
}

/// The imports made by the nodes `ns`, in order: every function call that
/// loads a module.
pub open spec fn imports_among(src: Seq<u8>, ns: Seq<SyntaxNode>) -> Seq<ImportSpecView>
    decreases ns.len(),
{
    if ns.len() == 0 {
        Seq::empty()
    } else {
        let rest = imports_among(src, ns.drop_last());
        let n = ns.last();
        if n.kind@ == "function_call"@ {
            match import_of_call(src, n) {
                Some(s) => rest.push(s),
                None => rest,
            }
        } else {
            rest
        }
    }
}

/// The imports of a Maxima source whose tree is rooted at `root`, in the
/// order of the calls in the source.
pub fn maxima_imports_in(root: &SyntaxNode, source: &str) -> (r: Vec<ImportSpec>)
    ensures
        import_views(r@) == imports_among(source.spec_bytes(), preorder(*root)),
{
    let nodes = preorder_nodes(root);
    let ghost ns = derefs(nodes@);
    let mut calls: Vec<ImportSpec> = Vec::new();
    assert(import_views(calls@) =~= imports_among(source.spec_bytes(), ns.subrange(0, 0)));
    let mut i: usize = 0;
    while i < nodes.len()
        invariant
            i <= nodes@.len(),
            ns == derefs(nodes@),
            import_views(calls@) == imports_among(source.spec_bytes(), ns.subrange(0, i as int)),
        decreases nodes@.len() - i,
    {
        let n = nodes[i];
        let ghost sub = ns.subrange(0, i + 1);
        assert(sub.drop_last() =~= ns.subrange(0, i as int));
        assert(sub.last() == *n);
        if kind_is(n, "function_call") {
            match extract_import_from_call(n, source) {
                Some(spec) => {
                    let ghost before = import_views(calls@);
                    let ghost sv = spec@;
                    calls.push(spec);
                    assert(import_views(calls@) =~= before.push(sv));
                },
                None => {},
            }
        }
        i = i + 1;
    }
    assert(ns.subrange(0, ns.len() as int) =~= ns);
    calls
}

/// Whether `specs` are the imports of Maxima `source` in the grammar
/// `lang`: those of its syntax tree, none when the grammar is refused.
pub open spec fn maxima_imports_of(specs: Seq<ImportSpecView>, lang: tree_sitter::Language, source: Seq<char>) -> bool {
    if accepted(lang) {
        exists|t: SyntaxNode| parse_of(t, lang, source) && specs == imports_among(encode_utf8(source), preorder(t))
    } else {
        specs.len() == 0
    }
}

/// The imports of Maxima `source`, parsed in the grammar `lang`; none when
/// the parser refuses the grammar.
pub fn find_maxima_imports(source: &str, lang: &tree_sitter::Language) -> (r: Vec<ImportSpec>)
    ensures
        maxima_imports_of(import_views(r@), *lang, source@),
{
    match parse_with(lang, source) {
        Some(tree) => maxima_imports_in(&tree, source),
        None => Vec::new(),
    }
}

/// The module a Lisp `load` argument names: a string without its quotes or
/// a symbol; never empty.
pub open spec fn lisp_load_arg(src: Seq<u8>, n: SyntaxNode) -> Option<Seq<char>> {
    if n.kind@ == "str_lit"@ {
        match node_text_of(src, n) {
            Some(t) => non_empty(trim_char(t, '"')),
            None => None,
        }
    } else if n.kind@ == "sym_lit"@ {
        match node_text_of(src, n) {
            Some(t) => non_empty(t),
            None => None,
        }
    } else {
        None
    }
}

/// The module that the Lisp argument `node` names.
pub fn extract_lisp_load_arg(node: &SyntaxNode, source: &str) -> (r: Option<String>)
    ensures
        r matches Some(s) ==> lisp_load_arg(source.spec_bytes(), *node) == Some(s@),
        r is None ==> lisp_load_arg(source.spec_bytes(), *node) is None,
{
    if kind_is(node, "str_lit") {
        match node_text(source.as_bytes(), node) {
            Some(t) => {
                let cs = chars_of(t.as_str());
                let inner = trim_matches(cs.as_slice(), '"');
                if inner.len() > 0 {
                    Some(string_of(inner.as_slice()))
                } else {
                    None
                }
            },
            None => None,
        }
    } else if kind_is(node, "sym_lit") {
        match node_text(source.as_bytes(), node) {
            Some(t) => if !t.as_str().is_empty() {
                Some(t)
            } else {
                None
            },
            None => None,
        }
    } else {
        None
    }
}

/// The imports that the named arguments of a Lisp loading form before the
/// one at `upto` make, one per argument that names a module.
pub open spec fn lisp_import_args(src: Seq<u8>, n: SyntaxNode, upto: int) -> Seq<ImportSpecView>
    decreases upto,
{
    if upto <= 1 {
        Seq::empty()
    } else {
        let r = lisp_import_args(src, n, upto - 1);
        match named_child_of(n, upto - 1) {
            Some(a) => match lisp_load_arg(src, a) {
                Some(p) => r.push(ImportSpecView { package: p, version: None }),
                None => r,
            },
            None => r,
        }
    }
}

/// The imports a Lisp node makes: a list whose first named element is the
/// symbol of a loading function loads each module its other named elements
/// name.
pub open spec fn lisp_imports_of(src: Seq<u8>, n: SyntaxNode) -> Seq<ImportSpecView> {
    if n.kind@ == "list_lit"@ {
        match named_child_of(n, 0) {
            Some(f) => if f.kind@ == "sym_lit"@ {
                match node_text_of(src, f) {
                    Some(name) => if is_import_function(name) {
                        lisp_import_args(src, n, named_count(n.children@) as int)
                    } else {
                        Seq::empty()
                    },
                    None => Seq::empty(),
                }
            } else {
                Seq::empty()
            },
            None => Seq::empty(),
        }
    } else {
        Seq::empty()
    }
}

/// The imports the Lisp nodes `ns` make, in order.
pub open spec fn lisp_imports_among(src: Seq<u8>, ns: Seq<SyntaxNode>) -> Seq<ImportSpecView>
    decreases ns.len(),
{
    if ns.len() == 0 {
        Seq::empty()
    } else {
        lisp_imports_among(src, ns.drop_last()) + lisp_imports_of(src, ns.last())
    }
}

/// The imports that the Lisp node `n` makes.
fn lisp_form_imports(n: &SyntaxNode, source: &str, out: &mut Vec<ImportSpec>)
    ensures
        import_views(final(out)@) == import_views(old(out)@) + lisp_imports_of(
            source.spec_bytes(),
            *n,
        ),
{
    let ghost start = import_views(out@);
    let ghost src = source.spec_bytes();
    if !kind_is(n, "list_lit") {
        assert(import_views(out@) =~= start + Seq::<ImportSpecView>::empty());
        return;
    }
    let f = match named_child(n, 0) {
        Some(f) => f,
        None => {
            assert(import_views(out@) =~= start + Seq::<ImportSpecView>::empty());
            return;
        },
    };
    let is_load = if kind_is(f, "sym_lit") {
        match node_text(source.as_bytes(), f) {
            Some(name) => import_function(name.as_str()),
            None => false,
        }
    } else {
        false
    };
    if !is_load {
        assert(import_views(out@) =~= start + Seq::<ImportSpecView>::empty());
        return;
    }
    let nc = named_child_count(n);
    let mut ci: usize = 1;
    assert(import_views(out@) =~= start + lisp_import_args(src, *n, 1));
    while ci < nc
        invariant
            1 <= ci,
            ci <= nc || ci == 1,
            nc == named_count(n.children@),
            src == source.spec_bytes(),
            import_views(out@) == start + lisp_import_args(src, *n, ci as int),
        decreases nc - ci,
    {
        match named_child(n, ci) {
            Some(arg) => {
                match extract_lisp_load_arg(arg, source) {
                    Some(raw) => {
                        let ghost before = import_views(out@);
                        let spec = ImportSpec { package: raw, version: None };
                        let ghost sv = spec@;
                        out.push(spec);
                        assert(import_views(out@) =~= before.push(sv));
                    },
                    None => {},
                }
            },
            None => {},
        }
        ci = ci + 1;
    }
    assert(nc <= 1 ==> lisp_import_args(src, *n, nc as int) =~= Seq::<ImportSpecView>::empty());
}

/// The imports of a Common Lisp source whose tree is rooted at `root`.
pub fn lisp_imports_in(root: &SyntaxNode, source: &str) -> (r: Vec<ImportSpec>)
    ensures
        import_views(r@) == lisp_imports_among(source.spec_bytes(), preorder(*root)),
{
    let nodes = preorder_nodes(root);
    let ghost ns = derefs(nodes@);
    let mut calls: Vec<ImportSpec> = Vec::new();
    assert(import_views(calls@) =~= lisp_imports_among(source.spec_bytes(), ns.subrange(0, 0)));
    let mut i: usize = 0;
    while i < nodes.len()
        invariant
            i <= nodes@.len(),
            ns == derefs(nodes@),
            import_views(calls@) == lisp_imports_among(
                source.spec_bytes(),
                ns.subrange(0, i as int),
            ),
        decreases nodes@.len() - i,
    {
        let n = nodes[i];
        let ghost sub = ns.subrange(0, i + 1);
        assert(sub.drop_last() =~= ns.subrange(0, i as int));
        assert(sub.last() == *n);
        lisp_form_imports(n, source, &mut calls);
        i = i + 1;
    }
    assert(ns.subrange(0, ns.len() as int) =~= ns);
    calls
}

/// Whether `specs` are the imports of the Common Lisp `source`: those of
/// its syntax tree.
pub open spec fn lisp_source_imports(specs: Seq<ImportSpecView>, source: Seq<char>) -> bool {
    exists|t: SyntaxNode| lisp_parse_of(t, source) && specs == lisp_imports_among(encode_utf8(source), preorder(t))
}

/// The imports of Common Lisp `source`.
pub fn find_lisp_imports(source: &str) -> (r: Vec<ImportSpec>)
    ensures
        lisp_source_imports(import_views(r@), source@),
{
    match parse_commonlisp(source) {
        Some(tree) => lisp_imports_in(&tree, source),
        None => Vec::new(),
    }
}

/// Whether `specs` are the imports of `source`: those of its Maxima reading
/// in the grammar `maxima`, or, when it has none, those of its Common Lisp
/// reading.
pub open spec fn import_specs_of(specs: Seq<ImportSpecView>, maxima: tree_sitter::Language, source: Seq<char>) -> bool {
    exists|m: Seq<ImportSpecView>|
        maxima_imports_of(m, maxima, source) && if m.len() > 0 {
            specs == m
        } else {
            lisp_source_imports(specs, source)
        }
}

/// The imports of `source`: those of its Maxima reading in the grammar
/// `maxima`, or, when it has none, those of its Common Lisp reading.
pub fn find_import_specs(source: &str, maxima: &tree_sitter::Language) -> (r: Vec<ImportSpec>)
    ensures
        import_specs_of(import_views(r@), *maxima, source@),
{
    let m = find_maxima_imports(source, maxima);
    if m.len() > 0 {
        return m;
    }
    find_lisp_imports(source)
}

/// Whether node `n` is a call of a loading function with a module argument,
/// and holds byte `byte`.
pub open spec fn is_import_call_at(src: Seq<u8>, n: SyntaxNode, byte: int) -> bool {
    n.kind@ == "function_call"@ && n.start_byte <= byte < n.end_byte && import_of_call(src, n) is Some
}

/// Whether one of the first `k` nodes of the walk `p` is an import call
/// holding byte `byte`.
pub open spec fn inside_import_call(src: Seq<u8>, p: Seq<SyntaxNode>, k: int, byte: int) -> bool {
    exists|j: int| 0 <= j < k && is_import_call_at(src, #[trigger] p[j], byte)
}

/// Whether one of the first `k` nodes of the walk `path` (the ancestors of
/// its `k`-th node) is an import call holding byte `byte`.
fn is_inside_import_call(path: &Vec<&SyntaxNode>, k: usize, byte: usize, source: &str) -> (b: bool)
    requires
        k <= path@.len(),
    ensures
        b == inside_import_call(source.spec_bytes(), derefs(path@), k as int, byte as int),
{
    let ghost p = derefs(path@);
    let mut j = k;
    while j > 0
        invariant
            j <= k <= path@.len(),
            p == derefs(path@),
            forall|i: int| j <= i < k ==> !is_import_call_at(source.spec_bytes(), #[trigger] p[i], byte as int),
        decreases j,
    {
        let call = path[j - 1];
        assert(p[j - 1] == *call);
        if kind_is(call, "function_call") && call.start_byte <= byte && byte < call.end_byte {
            if extract_import_from_call(call, source).is_some() {
                return true;
            }
        }
        j = j - 1;
    }
    false
}

/// The first named child of `n`, from the one at `from` on, that names a
/// module; the search stops at a missing child.
pub open spec fn first_load_node(src: Seq<u8>, n: SyntaxNode, from: int) -> Option<SyntaxNode>
    decreases named_count(n.children@) - from,
{
    if from < 0 || from >= named_count(n.children@) {
        None
    } else {
        match named_child_of(n, from) {
            None => None,
            Some(ch) => if load_argument(src, ch) is Some {
                Some(ch)
            } else {
                first_load_node(src, n, from + 1)
            },
        }
    }
}

/// The first argument of the call `call` that names a module.
fn first_load_argument_node<'a>(call: &'a SyntaxNode, source: &str) -> (r: Option<&'a SyntaxNode>)
    ensures
        r matches Some(c) ==> first_load_node(source.spec_bytes(), *call, 1) == Some(*c),
        r is None ==> first_load_node(source.spec_bytes(), *call, 1) is None,
{
    let nc = named_child_count(call);
    let mut ci: usize = 1;
    while ci < nc
        invariant
            1 <= ci,
            ci <= nc || ci == 1,
            nc == named_count(call.children@),
            first_load_node(source.spec_bytes(), *call, 1) == first_load_node(
                source.spec_bytes(),
                *call,
                ci as int,
            ),
        decreases nc - ci,
    {
        let ch = match named_child(call, ci) {
            Some(ch) => ch,
            None => {
                return None;
            },
        };
        if extract_load_argument(ch, source).is_some() {
            return Some(ch);
        }
        ci = ci + 1;
    }
    None
}

/// The load target found going up the walk `p` from its `k`-th node: an
/// import call holding the byte gives its package and the range of its
/// first module argument (or its own); a string, atom or identifier naming
/// a module inside such a call gives that name and its own range.
pub open spec fn load_target_from(src: Seq<u8>, p: Seq<SyntaxNode>, k: int, byte: int) -> Option<
    (Seq<char>, TextRange),
>
    decreases k + 1,
{
    if k < 0 || k >= p.len() {
        None
    } else {
        let n = p[k];
        let call = if n.kind@ == "function_call"@ && n.start_byte <= byte < n.end_byte {
            import_of_call(src, n)
        } else {
            None
        };
        match call {
            Some(s) => Some(
                (
                    s.package,
                    match first_load_node(src, n, 1) {
                        Some(a) => span_of(a),
                        None => span_of(n),
                    },
                ),
            ),
            None => if (n.kind@ == "string"@ || n.kind@ == "atom"@ || n.kind@ == "identifier"@)
                && load_argument(src, n) is Some && inside_import_call(src, p, k, byte) {
                Some((load_argument(src, n)->0, span_of(n)))
            } else {
                load_target_from(src, p, k - 1, byte)
            },
        }
    }
}

/// The module named under byte `byte` of the tree rooted at `root`, with
/// the range that names it.
pub open spec fn load_target(src: Seq<u8>, root: SyntaxNode, byte: int) -> Option<
    (Seq<char>, TextRange),
> {
    let p = descent(root, byte);
    load_target_from(src, p, p.len() - 1, byte)
}

/// The module that the argument of a `load`, `batch`, `batchload` or
/// `import` call under byte `byte` names, with its range.
pub fn load_target_at_position(root: &SyntaxNode, byte: usize, source: &str) -> (r: Option<
    (String, TextRange),
>)
    ensures
        r matches Some((name, range)) ==> load_target(source.spec_bytes(), *root, byte as int)
            == Some((name@, range)),
        r is None ==> load_target(source.spec_bytes(), *root, byte as int) is None,
{
    let path = descent_path(root, byte);
    let ghost p = derefs(path@);
    let ghost src = source.spec_bytes();
    let mut k = path.len();
    while k > 0
        invariant
            k <= path@.len(),
            p == derefs(path@),
            src == source.spec_bytes(),
            load_target(src, *root, byte as int) == load_target_from(src, p, k - 1, byte as int),
        decreases k,
    {
        let node = path[k - 1];
        assert(p[k - 1] == *node);
        if kind_is(node, "function_call") && node.start_byte <= byte && byte < node.end_byte {
            match extract_import_from_call(node, source) {
                Some(spec) => {
                    let range = match first_load_argument_node(node, source) {
                        Some(a) => text_range(a),
                        None => text_range(node),
                    };
                    return Some((spec.package, range));
                },
                None => {},
            }
        }
        if kind_is(node, "string") || kind_is(node, "atom") || kind_is(node, "identifier") {
            match extract_load_argument(node, source) {
                Some(name) => {
                    if is_inside_import_call(&path, k - 1, byte, source) {
                        return Some((name, text_range(node)));
                    }
                },
                None => {},
            }
        }
        k = k - 1;
    }
    None
}

/// The module named under byte `byte`, when it is inside a loading call.
pub fn import_module_at_position(root: &SyntaxNode, byte: usize, source: &str) -> (r: Option<String>)
    ensures
        r matches Some(name) ==> load_target(source.spec_bytes(), *root, byte as int) matches Some(
            t,
        ) && t.0 == name@,
        r is None ==> load_target(source.spec_bytes(), *root, byte as int) is None,
{
    match load_target_at_position(root, byte, source) {
        Some((name, _)) => Some(name),
        None => None,
    }
}

// ---------------------------------------------------------------------
// Following imports

/// What an import walk is doing.
pub struct WalkView {
    pub follow: bool,
    pub base_dir: Seq<char>,
    pub specs: Seq<ImportSpecView>,
    pub next: int,
    pub dir: Seq<char>,
    pub search: Option<PathSearchView>,
    pub seen: Seq<Seq<char>>,
    /// The searches finished so far, in order: the name, version and
    /// directory each was for (as its cache key) and what it found.
    pub found: Seq<(Seq<char>, Option<Seq<char>>)>,
    pub queue: Seq<Seq<char>>,
    pub reading: Option<Seq<char>>,
    pub docs: Map<Seq<char>, ExternalDocView>,
    pub defs: Map<Seq<char>, LocationView>,
}

/// What a walk asks for next.
pub enum WalkStepView {
    Probe(ProbeView),
    Read(Seq<char>),
    Done,
}

/// What a walk asks for next: a probe for the path search under way, the
/// text of a file, or nothing more.
pub enum WalkStep {
    Probe(Probe),
    Read(String),
    Done,
}

impl View for WalkStep {
    type V = WalkStepView;

    open spec fn view(&self) -> WalkStepView {
        match self {
            WalkStep::Probe(p) => WalkStepView::Probe(p@),
            WalkStep::Read(p) => WalkStepView::Read(p@),
            WalkStep::Done => WalkStepView::Done,
        }
    }
}

/// The resolution of the imports of a source, and, when it follows them,
/// of the imports of the files they load, run as a sequence of steps: the
/// caller asks for the next step, answers it (a probe through `answer`, a
/// read through `file_read`), and repeats until the walk is done.
///
/// The imports of one file are resolved in order, from the directory of
/// that file; each path found for the first time is queued, and the files
/// are read last queued first. The documentation and definitions of each
/// file read are gathered: a file's documentation replaces earlier records
/// of the same names, while earlier definitions stay.
pub struct ImportWalk {
    follow: bool,
    base_dir: String,
    specs: Vec<ImportSpec>,
    next: usize,
    dir: String,
    search: Option<PathSearch>,
    seen: Vec<String>,
    found: Ghost<Seq<(Seq<char>, Option<Seq<char>>)>>,
    queue: Vec<String>,
    reading: Option<String>,
    docs: NameMap<ExternalDoc>,
    defs: NameMap<Location>,
}

impl View for ImportWalk {
    type V = WalkView;

    closed spec fn view(&self) -> WalkView {
        WalkView {
            follow: self.follow,
            base_dir: self.base_dir@,
            specs: import_views(self.specs@),
            next: self.next as int,
            dir: self.dir@,
            search: match self.search {
                Some(s) => Some(s@),
                None => None,
            },
            seen: string_views(self.seen@),
            found: self.found@,
            queue: string_views(self.queue@),
            reading: opt_str(self.reading),
            docs: external_views(self.docs.map()),
            defs: location_views(self.defs.map()),
        }
    }
}

/// Whether `seen` holds a path that is the same path as `p`.
pub open spec fn holds_path(seen: Seq<Seq<char>>, p: Seq<char>) -> bool {
    exists|i: int| 0 <= i < seen.len() && components(#[trigger] seen[i]) == components(p)
}

/// The walk after a search found `o`: a path that is not the same path as
/// one seen before is noted and queued.
pub open spec fn with_found(w: WalkView, o: Option<Seq<char>>) -> WalkView {
    match o {
        Some(p) => if holds_path(w.seen, p) {
            w
        } else {
            WalkView { seen: w.seen.push(p), queue: w.queue.push(p), ..w }
        },
        None => w,
    }
}

/// How much resolving a walk has left: two for each import not yet
/// started, one for a search under way.
pub open spec fn walk_measure(w: WalkView) -> int {
    (if 0 <= w.next <= w.specs.len() {
        (w.specs.len() - w.next) * 2
    } else {
        0
    }) + (if w.search is Some {
        1int
    } else {
        0int
    })
}

/// The walk and the resolver after asking for the next step, and that
/// step. A search under way asks its next probe, or, once done, is
/// remembered by the resolver and its result taken; then the next import
/// starts a search from the current directory; with no import left, a walk
/// that does not follow files is done, and one that does asks for the file
/// it is reading or the last queued one, and is done when none is left.
pub open spec fn walk_next(w: WalkView, r: PathResolverView) -> (WalkView, PathResolverView, WalkStepView)
    decreases walk_measure(w),
{
    match w.search {
        Some(s) => {
            let (s2, step) = next_of(s);
            match step {
                StepView::Probe(p) => (WalkView { search: Some(s2), ..w }, r, WalkStepView::Probe(p)),
                StepView::Done(o) => walk_next(
                    with_found(WalkView { search: None, found: w.found.push((s2.key, o)), ..w }, o),
                    remembered(r, s2),
                ),
            }
        },
        None => if 0 <= w.next < w.specs.len() {
            let spec = w.specs[w.next];
            walk_next(
                WalkView {
                    search: Some(start_search(r, spec.package, spec.version, w.dir)),
                    next: w.next + 1,
                    ..w
                },
                r,
            )
        } else if !w.follow {
            (w, r, WalkStepView::Done)
        } else {
            match w.reading {
                Some(p) => (w, r, WalkStepView::Read(p)),
                None => if w.queue.len() > 0 {
                    (
                        WalkView { reading: Some(w.queue.last()), queue: w.queue.drop_last(), ..w },
                        r,
                        WalkStepView::Read(w.queue.last()),
                    )
                } else {
                    (w, r, WalkStepView::Done)
                },
            }
        },
    }
}

/// The walk after the answer `a` to the probe of its search: the search
/// takes the answer; without a search nothing changes.
pub open spec fn walk_answered(w: WalkView, a: AnswerView) -> WalkView {
    match w.search {
        Some(s) => WalkView {
            search: Some(
                match s.pending {
                    Some(t) => crate::paths::after_answer(PathSearchView { pending: None, ..s }, t, a),
                    None => s,
                },
            ),
            ..w
        },
        None => w,
    }
}

/// The records of a file's documentation, each marked as coming from
/// `path`.
pub open spec fn with_source(m: Map<Seq<char>, ExternalDocView>, path: Seq<char>) -> Map<
    Seq<char>,
    ExternalDocView,
> {
    m.map_values(|d: ExternalDocView| ExternalDocView { source_file: path, ..d })
}

/// The directory whose imports are resolved next after reading `path`: its
/// parent, or the walk's base directory when it has none.
pub open spec fn directory_of(path: Seq<char>, base: Seq<char>) -> Seq<char> {
    match parent_spec(path) {
        Some(d) => d,
        None => base,
    }
}

/// The walk after taking in the file `path` it was reading: its
/// documentation replaces earlier records of the same names, its
/// definitions are added where no earlier one has the name, and its imports
/// are resolved next, from its directory.
pub open spec fn absorbed(
    w: WalkView,
    path: Seq<char>,
    docs: Map<Seq<char>, ExternalDocView>,
    defs: Map<Seq<char>, LocationView>,
    subs: Seq<ImportSpecView>,
) -> WalkView {
    WalkView {
        docs: w.docs.union_prefer_right(with_source(docs, path)),
        defs: defs.union_prefer_right(w.defs),
        specs: subs,
        next: 0,
        dir: directory_of(path, w.base_dir),
        reading: None,
        ..w
    }
}

/// Whether a file is read as Common Lisp: its extension, in lowercase, is
/// `lisp` or `lsp`.
pub open spec fn is_lisp_path(path: Seq<char>) -> bool {
    match extension_spec(path) {
        Some(e) => lowercase_of(e) == "lisp"@ || lowercase_of(e) == "lsp"@,
        None => false,
    }
}

/// Whether the file `path` is read as Common Lisp.
pub fn is_lisp_file(path: &str) -> (b: bool)
    ensures
        b == is_lisp_path(path@),
{
    match extension(path) {
        Some(e) => {
            let l = to_lowercase(e.as_str());
            str_equals(l.as_str(), "lisp") || str_equals(l.as_str(), "lsp")
        },
        None => false,
    }
}

/// Whether `v` holds a path that is the same path as `p`.
fn contains_path(v: &Vec<String>, p: &str) -> (b: bool)
    ensures
        b == holds_path(string_views(v@), p@),
{
    let ghost sv = string_views(v@);
    let mut i: usize = 0;
    while i < v.len()
        invariant
            i <= v@.len(),
            sv == string_views(v@),
            forall|j: int| 0 <= j < i ==> components(#[trigger] sv[j]) != components(p@),
        decreases v@.len() - i,
    {
        if same_path(v[i].as_str(), p) {
            assert(components(sv[i as int]) == components(p@));
            return true;
        }
        i = i + 1;
    }
    false
}

/// Adds the records of `from`, replacing those of the same names.
pub fn merge_docs(into: &mut NameMap<ExternalDoc>, from: &NameMap<ExternalDoc>)
    ensures
        external_views(final(into).map()) == external_views(old(into).map()).union_prefer_right(
            external_views(from.map()),
        ),
{
    let ghost es = from.entries();
    let ghost start = external_views(into.map());
    let n = from.len();
    let mut i: usize = 0;
    assert(start.union_prefer_right(external_views(crate::name_map::entries_map(es.subrange(0, 0))))
        =~= start);
    while i < n
        invariant
            i <= n,
            n == es.len(),
            es == from.entries(),
            start == external_views(old(into).map()),
            external_views(into.map()) == start.union_prefer_right(
                external_views(crate::name_map::entries_map(es.subrange(0, i as int))),
            ),
        decreases n - i,
    {
        let name = from.name_at(i).clone();
        let d = from.value_at(i).duplicate();
        let ghost before = external_views(into.map());
        let ghost k = name@;
        let ghost dv = d@;
        into.insert(name, d);
        let ghost sub = es.subrange(0, i + 1);
        assert(sub.drop_last() =~= es.subrange(0, i as int));
        assert(external_views(into.map()) =~= before.insert(k, dv));
        assert(external_views(into.map()) =~= start.union_prefer_right(
            external_views(crate::name_map::entries_map(sub)),
        ));
        i = i + 1;
    }
    assert(es.subrange(0, es.len() as int) =~= es);
}

/// Adds the locations of `from` for the names that have none yet.
pub fn merge_missing_defs(into: &mut NameMap<Location>, from: &NameMap<Location>)
    ensures
        location_views(final(into).map()) == location_views(from.map()).union_prefer_right(
            location_views(old(into).map()),
        ),
{
    let ghost es = from.entries();
    let ghost own = location_views(into.map());
    let n = from.len();
    let mut i: usize = 0;
    assert(location_views(crate::name_map::entries_map(es.subrange(0, 0))).union_prefer_right(own)
        =~= own);
    while i < n
        invariant
            i <= n,
            n == es.len(),
            es == from.entries(),
            own == location_views(old(into).map()),
            location_views(into.map()) == location_views(
                crate::name_map::entries_map(es.subrange(0, i as int)),
            ).union_prefer_right(own),
        decreases n - i,
    {
        let name = from.name_at(i).clone();
        let loc = from.value_at(i).duplicate();
        let ghost before = location_views(into.map());
        let ghost k = name@;
        let ghost lv = loc@;
        let ghost pre = crate::name_map::entries_map(es.subrange(0, i as int));
        assert(!pre.contains_key(k)) by {
            if pre.contains_key(k) {
                crate::name_map::lemma_entries_map_keys(es.subrange(0, i as int), k);
                let m = choose|m: int| 0 <= m < i && #[trigger] es.subrange(0, i as int)[m].0@ == k;
                assert(es[m].0@ == k);
            }
        }
        let ghost had = into.map().contains_key(k);
        assert(before.contains_key(k) == had);
        assert(location_views(pre).contains_key(k) == pre.contains_key(k));
        assert(had == own.contains_key(k));
        into.insert_if_absent(name, loc);
        let ghost sub = es.subrange(0, i + 1);
        assert(sub.drop_last() =~= es.subrange(0, i as int));
        assert(crate::name_map::entries_map(sub) == pre.insert(k, es[i as int].1));
        assert(es[i as int].1@ == lv);
        proof {
            if had {
                assert(location_views(into.map()) == before);
            } else {
                assert(location_views(into.map()) =~= before.insert(k, lv));
            }
        }
        assert(location_views(into.map()) =~= location_views(
            crate::name_map::entries_map(sub),
        ).union_prefer_right(own));
        i = i + 1;
    }
    assert(es.subrange(0, es.len() as int) =~= es);
}

/// Whether `docs`, `defs` and `subs` are what the file `path` with text
/// `text` documents, defines and imports: read as Common Lisp when its
/// extension says so, else as Maxima in the grammar `maxima`; definitions
/// are located in the file's `file:` URL, and there are none when the path
/// has no such URL.
pub open spec fn file_contents(
    path: Seq<char>,
    text: Seq<char>,
    maxima: tree_sitter::Language,
    docs: Map<Seq<char>, ExternalDocView>,
    defs: Map<Seq<char>, LocationView>,
    subs: Seq<ImportSpecView>,
) -> bool {
    let lisp = is_lisp_path(path);
    &&& if lisp {
        lisp_docs_result(docs, text)
    } else {
        docstrings_result(docs, maxima, text)
    }
    &&& if !is_absolute_spec(path) {
        defs == Map::<Seq<char>, LocationView>::empty()
    } else if lisp {
        lisp_locations_result(defs, file_url_of(path), text)
    } else {
        definitions_result(defs, file_url_of(path), maxima, text)
    }
    &&& if lisp {
        lisp_source_imports(subs, text)
    } else {
        maxima_imports_of(subs, maxima, text)
    }
}

impl ImportWalk {
    /// A walk that resolves `specs` from `base_dir`; when `follow` is set it
    /// also reads the files found and follows their imports.
    pub fn start(specs: Vec<ImportSpec>, base_dir: &str, follow: bool) -> (w: ImportWalk)
        ensures
            w@ == (WalkView {
                follow,
                base_dir: base_dir@,
                specs: import_views(specs@),
                next: 0,
                dir: base_dir@,
                search: None,
                seen: Seq::empty(),
                found: Seq::empty(),
                queue: Seq::empty(),
                reading: None,
                docs: Map::empty(),
                defs: Map::empty(),
            }),
    {
        let w = ImportWalk {
            follow,
            base_dir: String::from_str(base_dir),
            specs,
            next: 0,
            dir: String::from_str(base_dir),
            search: None,
            seen: Vec::new(),
            found: Ghost(Seq::empty()),
            queue: Vec::new(),
            reading: None,
            docs: NameMap::new(),
            defs: NameMap::new(),
        };
        assert(w@.seen =~= Seq::<Seq<char>>::empty());
        assert(w@.queue =~= Seq::<Seq<char>>::empty());
        assert(w@.docs =~= Map::<Seq<char>, ExternalDocView>::empty());
        assert(w@.defs =~= Map::<Seq<char>, LocationView>::empty());
        w
    }

    /// What the walk asks next; the resolver remembers what each finished
    /// search found.
    pub fn next_step(&mut self, resolver: &mut PathResolver) -> (r: WalkStep)
        ensures
            (final(self)@, final(resolver)@, r@) == walk_next(old(self)@, old(resolver)@),
    {
        loop
            invariant
                walk_next(self@, resolver@) == walk_next(old(self)@, old(resolver)@),
            decreases walk_measure(self@),
        {
            if self.search.is_some() {
                let mut search = match self.search.take() {
                    Some(s) => s,
                    None => {
                        return WalkStep::Done;
                    },
                };
                let ghost s0 = search@;
                let step = search.next_step();
                match step {
                    SearchStep::Probe(p) => {
                        self.search = Some(search);
                        return WalkStep::Probe(p);
                    },
                    SearchStep::Done(o) => {
                        proof {
                            self.found@ = self.found@.push((search@.key, opt_str(o)));
                        }
                        let ghost w0 = self@;
                        resolver.remember(&search);
                        match o {
                            Some(p) => {
                                if !contains_path(&self.seen, p.as_str()) {
                                    let ghost sv = string_views(self.seen@);
                                    let ghost qv = string_views(self.queue@);
                                    self.seen.push(p.clone());
                                    self.queue.push(p);
                                    assert(string_views(self.seen@) =~= sv.push(p@));
                                    assert(string_views(self.queue@) =~= qv.push(p@));
                                }
                            },
                            None => {},
                        }
                        assert(self@ == with_found(
                            WalkView { search: None, ..w0 },
                            opt_str(o),
                        ));
                    },
                }
            } else if self.next < self.specs.len() {
                let spec = &self.specs[self.next];
                let version = match &spec.version {
                    Some(v) => Some(v.as_str()),
                    None => None,
                };
                let s = resolver.resolve_import(spec.package.as_str(), version, self.dir.as_str());
                self.search = Some(s);
                self.next = self.next + 1;
            } else if !self.follow {
                return WalkStep::Done;
            } else {
                match &self.reading {
                    Some(p) => {
                        return WalkStep::Read(p.clone());
                    },
                    None => {},
                }
                let ghost qv = string_views(self.queue@);
                match self.queue.pop() {
                    Some(p) => {
                        assert(string_views(self.queue@) =~= qv.drop_last());
                        self.reading = Some(p.clone());
                        return WalkStep::Read(p);
                    },
                    None => {
                        return WalkStep::Done;
                    },
                }
            }
        }
    }

    /// Takes the answer to the probe of the search under way.
    pub fn answer(&mut self, a: ProbeAnswer)
        ensures
            final(self)@ == walk_answered(old(self)@, a@),
    {
        match self.search.take() {
            Some(mut s) => {
                s.answer(a);
                self.search = Some(s);
            },
            None => {},
        }
    }

    /// Takes in the file being read, given its documentation, definitions
    /// and imports; without a file being read nothing changes.
    pub fn absorb(
        &mut self,
        docs: NameMap<ExternalDoc>,
        defs: NameMap<Location>,
        subs: Vec<ImportSpec>,
    )
        ensures
            old(self)@.reading matches Some(p) ==> final(self)@ == absorbed(
                old(self)@,
                p,
                external_views(docs.map()),
                location_views(defs.map()),
                import_views(subs@),
            ),
            old(self)@.reading is None ==> final(self)@ == old(self)@,
    {
        let path = match &self.reading {
            Some(p) => p.clone(),
            None => {
                return;
            },
        };
        let ghost w0 = self@;
        let ghost des = docs.entries();
        let mut i: usize = 0;
        assert(w0.docs.union_prefer_right(
            with_source(external_views(entries_map(des.subrange(0, 0))), path@),
        ) =~= w0.docs);
        while i < docs.len()
            invariant
                i <= des.len(),
                des == docs.entries(),
                w0 == old(self)@,
                path@ == w0.reading->0,
                self@ == (WalkView {
                    docs: w0.docs.union_prefer_right(
                        with_source(external_views(entries_map(des.subrange(0, i as int))), path@),
                    ),
                    ..w0
                }),
            decreases des.len() - i,
        {
            let name = docs.name_at(i).clone();
            let mut d = docs.value_at(i).duplicate();
            d.source_file = path.clone();
            let ghost before = external_views(self.docs.map());
            let ghost dv = d@;
            self.docs.insert(name, d);
            let ghost sub = des.subrange(0, i + 1);
            assert(sub.drop_last() =~= des.subrange(0, i as int));
            assert(external_views(self.docs.map()) =~= before.insert(des[i as int].0@, dv));
            assert(external_views(self.docs.map()) =~= w0.docs.union_prefer_right(
                with_source(external_views(entries_map(sub)), path@),
            ));
            i = i + 1;
        }
        assert(des.subrange(0, des.len() as int) =~= des);
        merge_missing_defs(&mut self.defs, &defs);
        self.next = 0;
        self.specs = subs;
        self.dir = match parent(path.as_str()) {
            Some(d) => d,
            None => self.base_dir.clone(),
        };
        self.reading = None;
    }

    /// Takes the text of the file being read, or `None` when it could not
    /// be read (the file is then skipped). A file whose extension is `lisp`
    /// or `lsp` in any case is read as Common Lisp, any other as Maxima in
    /// the grammar `maxima`; definitions are recorded only for a file with
    /// a `file:` URL.
    pub fn file_read(&mut self, text: Option<String>, maxima: &tree_sitter::Language)
        ensures
            old(self)@.reading is None ==> final(self)@ == old(self)@,
            old(self)@.reading is Some && text is None ==> final(self)@ == (WalkView {
                reading: None,
                ..old(self)@
            }),
            old(self)@.reading is Some && text is Some ==> exists|
                docs: Map<Seq<char>, ExternalDocView>,
                defs: Map<Seq<char>, LocationView>,
                subs: Seq<ImportSpecView>,
            |
                #![trigger absorbed(old(self)@, old(self)@.reading->0, docs, defs, subs)]
                final(self)@ == absorbed(old(self)@, old(self)@.reading->0, docs, defs, subs)
                    && file_contents(old(self)@.reading->0, text->0@, *maxima, docs, defs, subs),
    {
        let path = match &self.reading {
            Some(p) => p.clone(),
            None => {
                return;
            },
        };
        let content = match text {
            Some(c) => c,
            None => {
                self.reading = None;
                return;
            },
        };
        let lisp = is_lisp_file(path.as_str());
        let uri = file_url(path.as_str());
        let docs = if lisp {
            extract_lisp_docs(content.as_str())
        } else {
            extract_docstrings(content.as_str(), maxima)
        };
        let defs = match &uri {
            Some(u) => if lisp {
                collect_lisp_defs(content.as_str(), u.as_str())
            } else {
                collect_definitions_from_source(content.as_str(), u.as_str(), maxima)
            },
            None => {
                let e = NameMap::new();
                assert(location_views(e.map()) =~= Map::<Seq<char>, LocationView>::empty());
                e
            },
        };
        let subs = if lisp {
            find_lisp_imports(content.as_str())
        } else {
            find_maxima_imports(content.as_str(), maxima)
        };
        let ghost dv = external_views(docs.map());
        let ghost fv = location_views(defs.map());
        let ghost sv = import_views(subs@);
        assert(file_contents(path@, content@, *maxima, dv, fv, sv));
        self.absorb(docs, defs, subs);
        assert(self@ == absorbed(old(self)@, path@, dv, fv, sv));
    }

    /// The paths found so far, each once, in the order they were found.
    pub fn found(&self) -> (r: &Vec<String>)
        ensures
            string_views(r@) == self@.seen,
    {
        &self.seen
    }

    /// The documentation gathered so far, by name.
    pub fn docs(&self) -> (r: &NameMap<ExternalDoc>)
        ensures
            external_views(r.map()) == self@.docs,
    {
        &self.docs
    }

    /// The definitions gathered so far, by name.
    pub fn definitions(&self) -> (r: &NameMap<Location>)
        ensures
            location_views(r.map()) == self@.defs,
    {
        &self.defs
    }
}

/// Starts finding the files that `source` imports from `base_dir`: a walk
/// that resolves its imports (see `find_import_specs`) without reading the
/// files; once it is done, `found` lists each path once, in order.
pub fn find_imports(source: &str, base_dir: &str, maxima: &tree_sitter::Language) -> (w:
    ImportWalk)
    ensures
        !w@.follow,
        w@.base_dir == base_dir@ && w@.dir == base_dir@ && w@.next == 0,
        w@.search is None && w@.reading is None,
        w@.seen.len() == 0 && w@.queue.len() == 0 && w@.found.len() == 0,
        import_specs_of(w@.specs, *maxima, source@),
{
    let specs = find_import_specs(source, maxima);
    ImportWalk::start(specs, base_dir, false)
}

/// Starts resolving the imports of `source` from `base_dir`, following them
/// into the files they load; once the walk is done, `docs` and
/// `definitions` hold what those files document and define.
pub fn resolve_imports(source: &str, base_dir: &str, maxima: &tree_sitter::Language) -> (w:
    ImportWalk)
    ensures
        w@.follow,
        w@.base_dir == base_dir@ && w@.dir == base_dir@ && w@.next == 0,
        w@.search is None && w@.reading is None,
        w@.seen.len() == 0 && w@.queue.len() == 0 && w@.found.len() == 0,
        w@.docs.len() == 0 && w@.defs.len() == 0,
        import_specs_of(w@.specs, *maxima, source@),
{
    let specs = find_import_specs(source, maxima);
    let w = ImportWalk::start(specs, base_dir, true);
    assert(w@.docs =~= Map::<Seq<char>, ExternalDocView>::empty());
    assert(w@.defs =~= Map::<Seq<char>, LocationView>::empty());
    w
}

/// Starts resolving the module `name` from `base_dir`, with no version.
pub fn resolve_import_path(name: &str, base_dir: &str, resolver: &PathResolver) -> (s: PathSearch)
    ensures
        s@ == start_search(resolver@, name@, None, base_dir@),
{
    resolver.resolve_import(name, None, base_dir)
}

} // verus!
