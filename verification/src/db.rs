//! The index of open documents: their trees, definitions and imported
//! documentation, and the answers it gives to lookups, go-to-definition,
//! completion and diagnostics.

use vstd::prelude::*;
use vstd::string::StringSliceAdditionalSpecFns;
use crate::definitions::{collect_definitions, definitions_in, node_range, range_of};
use crate::docs::{entry_views, DocEntry, DocEntryView, Builtins};
use crate::docstring::{external_entry, external_to_docentry, ExternalDoc, ExternalDocView};
use crate::imports::{
    merge_docs, merge_missing_defs, resolve_imports, ImportWalk, WalkStep, WalkView, walk_next,
};
use crate::docstring::extract_docstrings;
use crate::lsp::file_url;
use crate::lisp_extractor::external_views;
use crate::lsp::{location_views, url_file_path, url_file_path_of, Location, LocationView, Range};
use crate::name_map::NameMap;
use crate::parse::{accepted, commonlisp_language, language_accepted, lisp_parse_of, parse_of, parse_with};
use crate::pathname::{extension, extension_spec, parent, parent_spec};
use crate::paths::{remembered, start_search, PathResolver, PathResolverView, PathSearch};
use crate::syntax::{derefs, preorder, preorder_nodes, text_between, text_of, tour, SyntaxNode};
use crate::text::{append_str, str_equals};
use vstd::utf8::encode_utf8;

verus! {

/// The language of a document.
#[derive(Clone, Copy, Debug, PartialEq, Eq, Structural)]
pub enum Lang {
    Maxima,
    CommonLisp,
}

/// The language of a file: Common Lisp for the extensions `lisp` and `lsp`,
/// Maxima for any other.
pub open spec fn lang_of(path: Seq<char>) -> Lang {
    match extension_spec(path) {
        Some(e) => if e == "lisp"@ || e == "lsp"@ {
            Lang::CommonLisp
        } else {
            Lang::Maxima
        },
        None => Lang::Maxima,
    }
}

/// The language of the file `path`.
pub fn extension_to_lang(path: &str) -> (l: Lang)
    ensures
        l == lang_of(path@),
{
    match extension(path) {
        Some(e) => if str_equals(e.as_str(), "lisp") || str_equals(e.as_str(), "lsp") {
            Lang::CommonLisp
        } else {
            Lang::Maxima
        },
        None => Lang::Maxima,
    }
}

/// What the index knows of a document.
pub struct DocumentView {
    pub uri: Seq<char>,
    pub text: Seq<char>,
    pub version: i32,
    pub tree: SyntaxNode,
    pub lang: Lang,
    pub external_docs: Map<Seq<char>, ExternalDocView>,
    pub external_names: Seq<Seq<char>>,
    pub definitions: Map<Seq<char>, LocationView>,
    pub definition_names: Seq<Seq<char>>,
}

/// An open document: its text and tree, the definitions it makes or
/// imports, and the documentation of what it imports.
pub struct Document {
    pub uri: String,
    pub text: String,
    pub version: i32,
    pub tree: SyntaxNode,
    pub lang: Lang,
    pub external_docs: NameMap<ExternalDoc>,
    pub definitions: NameMap<Location>,
}

impl View for Document {
    type V = DocumentView;

    open spec fn view(&self) -> DocumentView {
        DocumentView {
            uri: self.uri@,
            text: self.text@,
            version: self.version,
            tree: self.tree,
            lang: self.lang,
            external_docs: external_views(self.external_docs.map()),
            external_names: self.external_docs.names(),
            definitions: location_views(self.definitions.map()),
            definition_names: self.definitions.names(),
        }
    }
}

/// What the index holds.
pub struct DatabaseView {
    pub paths: PathResolverView,
    pub documents: Map<Seq<char>, DocumentView>,
    pub uris: Seq<Seq<char>>,
    pub init_functions: Map<Seq<char>, ExternalDocView>,
    pub init_function_names: Seq<Seq<char>>,
    pub init_definitions: Map<Seq<char>, LocationView>,
    pub builtin_functions: Map<Seq<char>, DocEntryView>,
    pub builtin_function_names: Seq<Seq<char>>,
    pub builtin_constants: Map<Seq<char>, DocEntryView>,
    pub builtin_constant_names: Seq<Seq<char>>,
    pub keywords: Seq<Seq<char>>,
    /// The Maxima grammar the index parses with.
    pub grammar: tree_sitter::Language,
}

/// Why an index cannot be made.
#[derive(Debug, PartialEq, Eq, Structural)]
pub enum DatabaseError {
    /// The parser refuses the Maxima grammar.
    MaximaLanguage,
    /// The parser refuses the Common Lisp grammar.
    LispLanguage,
}

impl DatabaseError {
    /// The message that reports the error.
    pub fn message(&self) -> (s: &'static str)
        ensures
            *self == DatabaseError::MaximaLanguage ==> s@ == "Failed to set Maxima language"@,
            *self == DatabaseError::LispLanguage ==> s@ == "Failed to set Common Lisp language"@,
    {
        proof {
            reveal_strlit("Failed to set Maxima language");
            reveal_strlit("Failed to set Common Lisp language");
        }
        match self {
            DatabaseError::MaximaLanguage => "Failed to set Maxima language",
            DatabaseError::LispLanguage => "Failed to set Common Lisp language",
        }
    }
}

/// The index of open documents, with the built-in documentation and what
/// the user's init file defines.
pub struct Database {
    maxima: tree_sitter::Language,
    paths: PathResolver,
    docs: NameMap<Document>,
    builtins: Builtins,
    init_functions: NameMap<ExternalDoc>,
    init_definitions: NameMap<Location>,
}

/// The views of a map of documents.
pub open spec fn document_views(m: Map<Seq<char>, Document>) -> Map<Seq<char>, DocumentView> {
    m.map_values(|d: Document| d@)
}

impl View for Database {
    type V = DatabaseView;

    closed spec fn view(&self) -> DatabaseView {
        DatabaseView {
            paths: self.paths@,
            documents: document_views(self.docs.map()),
            uris: self.docs.names(),
            init_functions: external_views(self.init_functions.map()),
            init_function_names: self.init_functions.names(),
            init_definitions: location_views(self.init_definitions.map()),
            builtin_functions: entry_views(self.builtins.functions.map()),
            builtin_function_names: self.builtins.functions.names(),
            builtin_constants: entry_views(self.builtins.constants.map()),
            builtin_constant_names: self.builtins.constants.names(),
            keywords: crate::docs::str_views(self.builtins.keywords@),
            grammar: self.maxima,
        }
    }
}

/// The entry shown for a name that a document defines without
/// documentation: the signature `name (user-defined)`, the category `user`
/// and nothing else.
pub open spec fn user_entry(name: Seq<char>) -> DocEntryView {
    DocEntryView {
        signature: name + " (user-defined)"@,
        doc: Seq::empty(),
        params: Seq::empty(),
        return_doc: Seq::empty(),
        examples: Seq::empty(),
        category: "user"@,
    }
}

/// The entry for `name` that a document gives: its imported documentation,
/// or a user entry when it defines the name.
pub open spec fn document_entry(d: DocumentView, name: Seq<char>) -> Option<DocEntryView> {
    if d.external_docs.contains_key(name) {
        Some(external_entry(d.external_docs[name]))
    } else if d.definitions.contains_key(name) {
        Some(user_entry(name))
    } else {
        None
    }
}

/// The entry for `name` from the first of the first `upto` documents,
/// other than `uri`, that gives one.
pub open spec fn other_entry(db: DatabaseView, name: Seq<char>, uri: Seq<char>, upto: int) -> Option<
    DocEntryView,
>
    decreases upto,
{
    if upto <= 0 {
        None
    } else {
        match other_entry(db, name, uri, upto - 1) {
            Some(e) => Some(e),
            None => {
                let u = db.uris[upto - 1];
                if u != uri {
                    document_entry(db.documents[u], name)
                } else {
                    None
                }
            },
        }
    }
}

/// Whether the index lists each of its open documents exactly once.
pub open spec fn documents_listed(db: DatabaseView) -> bool {
    &&& db.uris.no_duplicates()
    &&& forall|k: Seq<char>| #[trigger] db.documents.contains_key(k) <==> db.uris.contains(k)
}

/// The documentation shown for `name` in document `uri`, looked up in
/// order: the init file's functions, the document itself, the other open
/// documents, the built-in functions, the built-in constants.
pub open spec fn lookup(db: DatabaseView, name: Seq<char>, uri: Seq<char>) -> Option<DocEntryView> {
    if db.init_functions.contains_key(name) {
        Some(external_entry(db.init_functions[name]))
    } else if db.documents.contains_key(uri) && document_entry(db.documents[uri], name) is Some {
        document_entry(db.documents[uri], name)
    } else if other_entry(db, name, uri, db.uris.len() as int) is Some {
        other_entry(db, name, uri, db.uris.len() as int)
    } else if db.builtin_functions.contains_key(name) {
        Some(db.builtin_functions[name])
    } else if db.builtin_constants.contains_key(name) {
        Some(db.builtin_constants[name])
    } else {
        None
    }
}

pub proof fn lemma_other_entry_stays(db: DatabaseView, name: Seq<char>, uri: Seq<char>, k: int, m: int)
    requires
        k <= m,
        other_entry(db, name, uri, k) is Some,
    ensures
        other_entry(db, name, uri, m) == other_entry(db, name, uri, k),
    decreases m - k,
{
    if k < m {
        lemma_other_entry_stays(db, name, uri, k, m - 1);
    }
}

/// The definition of `name` in the first of the first `upto` documents,
/// other than `uri`, that defines it.
pub open spec fn other_definition(db: DatabaseView, name: Seq<char>, uri: Seq<char>, upto: int) -> Option<
    LocationView,
>
    decreases upto,
{
    if upto <= 0 {
        None
    } else {
        match other_definition(db, name, uri, upto - 1) {
            Some(l) => Some(l),
            None => {
                let u = db.uris[upto - 1];
                if u != uri && db.documents[u].definitions.contains_key(name) {
                    Some(db.documents[u].definitions[name])
                } else {
                    None
                }
            },
        }
    }
}

/// Where `name` is defined, for document `uri`, looked up in order: the
/// init file, the document itself, the other open documents.
pub open spec fn definition(db: DatabaseView, name: Seq<char>, uri: Seq<char>) -> Option<LocationView> {
    if db.init_definitions.contains_key(name) {
        Some(db.init_definitions[name])
    } else if db.documents.contains_key(uri) && db.documents[uri].definitions.contains_key(name) {
        Some(db.documents[uri].definitions[name])
    } else {
        other_definition(db, name, uri, db.uris.len() as int)
    }
}

/// The user entry for `name`.
fn make_user_entry(name: &str) -> (e: DocEntry)
    ensures
        e@ == user_entry(name@),
{
    let mut signature = String::from_str(name);
    append_str(&mut signature, " (user-defined)");
    let e = DocEntry {
        signature,
        doc: String::new(),
        params: Vec::new(),
        return_doc: String::new(),
        examples: Vec::new(),
        category: String::from_str("user"),
    };
    assert(e@.params =~= Seq::<Seq<char>>::empty());
    assert(e@.examples =~= Seq::<Seq<char>>::empty());
    e
}

/// The entry for `name` that document `d` gives.
fn entry_in_document(d: &Document, name: &str) -> (r: Option<DocEntry>)
    ensures
        r matches Some(e) ==> document_entry(d@, name@) == Some(e@),
        r is None ==> document_entry(d@, name@) is None,
{
    match d.external_docs.get(name) {
        Some(ext) => {
            return Some(external_to_docentry(ext));
        },
        None => {},
    }
    if d.definitions.contains_key(name) {
        Some(make_user_entry(name))
    } else {
        None
    }
}

pub proof fn lemma_other_definition_stays(
    db: DatabaseView,
    name: Seq<char>,
    uri: Seq<char>,
    k: int,
    m: int,
)
    requires
        k <= m,
        other_definition(db, name, uri, k) is Some,
    ensures
        other_definition(db, name, uri, m) == other_definition(db, name, uri, k),
    decreases m - k,
{
    if k < m {
        lemma_other_definition_stays(db, name, uri, k, m - 1);
    }
}

/// The names of a list of entries.
pub open spec fn pair_names(v: Seq<(Seq<char>, DocEntryView)>) -> Seq<Seq<char>> {
    v.map_values(|p: (Seq<char>, DocEntryView)| p.0)
}

/// The views of a list of named entries.
pub open spec fn pair_views(v: Seq<(String, DocEntry)>) -> Seq<(Seq<char>, DocEntryView)> {
    v.map_values(|p: (String, DocEntry)| (p.0@, p.1@))
}

/// The entries of documented functions, in the order of their names.
pub open spec fn documented(names: Seq<Seq<char>>, m: Map<Seq<char>, ExternalDocView>) -> Seq<
    (Seq<char>, DocEntryView),
> {
    names.map_values(|k: Seq<char>| (k, external_entry(m[k])))
}

/// `acc` followed by a user entry for each of `names` not yet listed.
pub open spec fn with_user_names(acc: Seq<(Seq<char>, DocEntryView)>, names: Seq<Seq<char>>) -> Seq<
    (Seq<char>, DocEntryView),
>
    decreases names.len(),
{
    if names.len() == 0 {
        acc
    } else {
        let a = with_user_names(acc, names.drop_last());
        if pair_names(a).contains(names.last()) {
            a
        } else {
            a.push((names.last(), user_entry(names.last())))
        }
    }
}

/// The user functions offered for document `uri`: the init file's
/// documented functions, then those the document imports documentation
/// for, then each other name it defines, with a user entry.
pub open spec fn user_functions(db: DatabaseView, uri: Seq<char>) -> Seq<(Seq<char>, DocEntryView)> {
    let init = documented(db.init_function_names, db.init_functions);
    if db.documents.contains_key(uri) {
        let d = db.documents[uri];
        with_user_names(init + documented(d.external_names, d.external_docs), d.definition_names)
    } else {
        init
    }
}

/// How serious a diagnostic is.
#[derive(Clone, Copy, Debug, PartialEq, Eq, Structural)]
pub enum Severity {
    Error,
    Warning,
    Information,
    Hint,
}

/// What a diagnostic reports.
pub struct DiagnosticView {
    pub range: Range,
    pub severity: Severity,
    pub message: Seq<char>,
    pub source: Seq<char>,
}

/// A syntax error found in a document; every one is reported as an error
/// from `maxima-lsp`.
pub struct Diagnostic {
    pub range: Range,
    pub severity: Severity,
    pub message: String,
    pub source: String,
}

impl View for Diagnostic {
    type V = DiagnosticView;

    open spec fn view(&self) -> DiagnosticView {
        DiagnosticView { range: self.range, severity: self.severity, message: self.message@, source: self.source@ }
    }
}

/// The views of diagnostics.
pub open spec fn diagnostic_views(v: Seq<Diagnostic>) -> Seq<DiagnosticView> {
    v.map_values(|d: Diagnostic| d@)
}

/// The end of the snippet of an error at byte `start`: forty bytes on, or
/// the end of the text.
pub open spec fn snippet_end(src: Seq<u8>, start: int) -> int {
    if start + 40 < src.len() {
        start + 40
    } else {
        src.len() as int
    }
}

/// Whether the snippet of error node `n` can be cut from the text: its
/// bytes lie in the text and hold whole characters. A missing node needs
/// none.
pub open spec fn snippet_defined(src: Seq<u8>, n: SyntaxNode) -> bool {
    n.is_missing || !n.is_error || text_of(src, n.start_byte as int, snippet_end(src, n.start_byte as int)) is Some
}

/// What node `n`, an error or a missing node, is reported as: a missing
/// node by its kind, an error by the text from its start, forty bytes at
/// most.
pub open spec fn diagnostic_of(src: Seq<u8>, n: SyntaxNode) -> DiagnosticView {
    DiagnosticView {
        range: node_range(n),
        severity: Severity::Error,
        message: if n.is_missing {
            "Missing '"@ + n.kind@ + "'"@
        } else {
            "Syntax error: '"@ + text_of(src, n.start_byte as int, snippet_end(src, n.start_byte as int))->0
                + "'"@
        },
        source: "maxima-lsp"@,
    }
}

/// The diagnostics of the nodes `ns`, in order: one for each error or
/// missing node.
pub open spec fn diagnostics_among(src: Seq<u8>, ns: Seq<SyntaxNode>) -> Seq<DiagnosticView>
    decreases ns.len(),
{
    if ns.len() == 0 {
        Seq::empty()
    } else {
        let rest = diagnostics_among(src, ns.drop_last());
        if ns.last().is_error || ns.last().is_missing {
            rest.push(diagnostic_of(src, ns.last()))
        } else {
            rest
        }
    }
}

/// Whether every diagnostic of a document can be made.
pub open spec fn diagnostics_defined(d: DocumentView) -> bool {
    let src = encode_utf8(d.text);
    forall|i: int| 0 <= i < preorder(d.tree).len() ==> snippet_defined(src, #[trigger] preorder(d.tree)[i])
}

/// The diagnostics of document `uri`, in the order of a walk of its tree;
/// none for a document not open.
pub open spec fn diagnostics_of(db: DatabaseView, uri: Seq<char>) -> Seq<DiagnosticView> {
    if db.documents.contains_key(uri) {
        let d = db.documents[uri];
        diagnostics_among(encode_utf8(d.text), preorder(d.tree))
    } else {
        Seq::empty()
    }
}

/// The directory the imports of document `uri` are resolved from: that of
/// its file, or `.`.
pub open spec fn import_base(uri: Seq<char>) -> Seq<char> {
    match url_file_path_of(uri) {
        Some(p) => match parent_spec(p) {
            Some(d) => d,
            None => "."@,
        },
        None => "."@,
    }
}

/// The directory of the file of document `uri`, or `.`.
pub fn base_dir_of(uri: &str) -> (r: String)
    ensures
        r@ == import_base(uri@),
{
    match url_file_path(uri) {
        Some(p) => match parent(p.as_str()) {
            Some(d) => d,
            None => String::from_str("."),
        },
        None => String::from_str("."),
    }
}

/// The file path of document `uri`, or the empty path.
pub open spec fn document_path(uri: Seq<char>) -> Seq<char> {
    match url_file_path_of(uri) {
        Some(p) => p,
        None => Seq::empty(),
    }
}

/// Whether the parser takes the grammar a document at `uri` is read in:
/// the Common Lisp grammar, always taken, for a Lisp file, else the index's
/// Maxima grammar.
pub open spec fn document_parses(db: DatabaseView, uri: Seq<char>) -> bool {
    lang_of(document_path(uri)) == Lang::CommonLisp || accepted(db.grammar)
}

/// Whether `t` is the syntax tree of `text`, the text of a document at
/// `uri`, in the grammar it is read in.
pub open spec fn document_tree(db: DatabaseView, uri: Seq<char>, text: Seq<char>, t: SyntaxNode) -> bool {
    if lang_of(document_path(uri)) == Lang::CommonLisp {
        lisp_parse_of(t, text)
    } else {
        parse_of(t, db.grammar, text)
    }
}

/// The document indexed from its text, tree and finished import walk: the
/// definitions of its tree, and those the walk gathered for names it does
/// not define itself.
pub open spec fn indexed_document(
    uri: Seq<char>,
    text: Seq<char>,
    version: i32,
    tree: SyntaxNode,
    walk: WalkView,
    d: DocumentView,
) -> bool {
    &&& d.uri == uri
    &&& d.text == text
    &&& d.version == version
    &&& d.tree == tree
    &&& d.lang == lang_of(document_path(uri))
    &&& d.external_docs == walk.docs
    &&& d.definitions == walk.defs.union_prefer_right(definitions_in(encode_utf8(text), uri, tour(tree)))
}

/// Appends the entries of the documented functions of `m`, in order.
fn append_documented(result: &mut Vec<(String, DocEntry)>, m: &NameMap<ExternalDoc>)
    ensures
        pair_views(final(result)@) == pair_views(old(result)@) + documented(
            m.names(),
            external_views(m.map()),
        ),
{
    let ghost start = pair_views(result@);
    let ghost target = documented(m.names(), external_views(m.map()));
    let n = m.len();
    let mut i: usize = 0;
    assert(pair_views(result@) =~= start + target.subrange(0, 0));
    while i < n
        invariant
            i <= n,
            n == m.names().len(),
            target == documented(m.names(), external_views(m.map())),
            start == pair_views(old(result)@),
            pair_views(result@) == start + target.subrange(0, i as int),
        decreases n - i,
    {
        let name = m.name_at(i);
        let d = m.value_at(i);
        let e = external_to_docentry(d);
        let ghost before = pair_views(result@);
        let ghost ev = e@;
        result.push((name.clone(), e));
        assert(pair_views(result@) =~= before.push((name@, ev)));
        assert(m.names()[i as int] == name@);
        assert(external_views(m.map())[name@] == d@);
        assert(target[i as int] == (name@, ev));
        assert(pair_views(result@) =~= start + target.subrange(0, i + 1));
        i = i + 1;
    }
    assert(target.subrange(0, target.len() as int) =~= target);
}

/// Whether an entry named `name` is in `v`.
fn listed(v: &Vec<(String, DocEntry)>, name: &str) -> (b: bool)
    ensures
        b == pair_names(pair_views(v@)).contains(name@),
{
    let ghost names = pair_names(pair_views(v@));
    let mut i: usize = 0;
    while i < v.len()
        invariant
            i <= v@.len(),
            names == pair_names(pair_views(v@)),
            forall|j: int| 0 <= j < i ==> #[trigger] names[j] != name@,
        decreases v@.len() - i,
    {
        if str_equals(v[i].0.as_str(), name) {
            assert(names[i as int] == name@);
            return true;
        }
        i = i + 1;
    }
    false
}

/// Whether an index holds the built-in tables: the built-in functions,
/// constants and keywords, each function and constant name listed once.
pub open spec fn builtin_tables(db: DatabaseView) -> bool {
    &&& db.builtin_functions == crate::docs::builtin_functions()
    &&& db.builtin_constants == crate::docs::builtin_constants()
    &&& db.keywords == crate::docs::builtin_keywords()
    &&& db.builtin_function_names.no_duplicates()
    &&& db.builtin_constant_names.no_duplicates()
    &&& forall|k: Seq<char>| #[trigger]
        db.builtin_function_names.contains(k) <==> crate::docs::builtin_functions().contains_key(k)
    &&& forall|k: Seq<char>| #[trigger]
        db.builtin_constant_names.contains(k) <==> crate::docs::builtin_constants().contains_key(k)
}

impl Database {
    /// Every index holds the built-in tables, which nothing changes.
    #[verifier::type_invariant]
    pub open spec fn keeps_builtin_tables(self) -> bool {
        builtin_tables(self@)
    }

    /// An index with the Maxima grammar `maxima`, the path resolver `paths`
    /// and what the init file defines; an error when the parser refuses the
    /// Maxima or the Common Lisp grammar.
    pub fn new(
        maxima: tree_sitter::Language,
        paths: PathResolver,
        init_functions: NameMap<ExternalDoc>,
        init_definitions: NameMap<Location>,
    ) -> (r: Result<Database, DatabaseError>)
        ensures
            r is Ok <==> accepted(maxima),
            r matches Err(e) ==> e == DatabaseError::MaximaLanguage,
            r matches Ok(db) ==> db@.paths == paths@ && db@.documents == Map::<
                Seq<char>,
                DocumentView,
            >::empty() && db@.uris.len() == 0 && db@.init_functions == external_views(
                init_functions.map(),
            ) && db@.init_function_names == init_functions.names() && db@.init_definitions
                == location_views(init_definitions.map()) && db@.builtin_functions
                == crate::docs::builtin_functions() && db@.builtin_constants
                == crate::docs::builtin_constants() && db@.grammar == maxima,
            r matches Ok(db) ==> builtin_tables(db@),
    {
        if !language_accepted(&maxima) {
            return Err(DatabaseError::MaximaLanguage);
        }
        let lisp = commonlisp_language();
        if !language_accepted(&lisp) {
            return Err(DatabaseError::LispLanguage);
        }
        let builtins = Builtins::new();
        let _ = builtins.functions.len();
        let _ = builtins.constants.len();
        assert forall|k: Seq<char>| #[trigger] builtins.functions.names().contains(k)
            <==> crate::docs::builtin_functions().contains_key(k) by {
            assert(builtins.functions.map().contains_key(k) == entry_views(builtins.functions.map()).contains_key(k));
        }
        assert forall|k: Seq<char>| #[trigger] builtins.constants.names().contains(k)
            <==> crate::docs::builtin_constants().contains_key(k) by {
            assert(builtins.constants.map().contains_key(k) == entry_views(builtins.constants.map()).contains_key(k));
        }
        let db = Database {
            maxima,
            paths,
            docs: NameMap::new(),
            builtins,
            init_functions,
            init_definitions,
        };
        assert(document_views(db.docs.map()) =~= Map::<Seq<char>, DocumentView>::empty());
        assert(db.docs.names() =~= Seq::<Seq<char>>::empty());
        Ok(db)
    }

    /// The open document `uri`.
    pub fn get(&self, uri: &str) -> (r: Option<&Document>)
        ensures
            r matches Some(d) ==> self@.documents.contains_key(uri@) && self@.documents[uri@]
                == d@,
            r is None ==> !self@.documents.contains_key(uri@),
    {
        self.docs.get(uri)
    }

    /// Forgets the document `uri`.
    pub fn remove(&mut self, uri: &str)
        ensures
            final(self)@.documents == old(self)@.documents.remove(uri@),
            !old(self)@.documents.contains_key(uri@) ==> final(self)@.uris == old(self)@.uris,
            old(self)@.documents.contains_key(uri@) ==> exists|p: int|
                0 <= p < old(self)@.uris.len() && old(self)@.uris[p] == uri@ && final(self)@.uris
                    == old(self)@.uris.remove(p),
            final(self)@ == (DatabaseView {
                documents: final(self)@.documents,
                uris: final(self)@.uris,
                ..old(self)@
            }),
    {
        let ghost before = self.docs.map();
        let ghost names0 = self.docs.names();
        assert(document_views(before).contains_key(uri@) == before.contains_key(uri@));
        proof {
            use_type_invariant(&*self);
        }
        let mut docs = NameMap::new();
        std::mem::swap(&mut docs, &mut self.docs);
        docs.remove(uri);
        self.docs = docs;
        assert(document_views(self.docs.map()) =~= document_views(before).remove(uri@));
        proof {
            if before.contains_key(uri@) {
                let p = choose|p: int|
                    0 <= p < names0.len() && names0[p] == uri@ && self.docs.names()
                        == names0.remove(p);
                assert(old(self)@.uris[p] == uri@);
            }
        }
    }

    /// The documentation shown for `name` in document `uri`.
    pub fn lookup_doc(&self, name: &str, uri: &str) -> (r: Option<DocEntry>)
        ensures
            r matches Some(e) ==> lookup(self@, name@, uri@) == Some(e@),
            r is None ==> lookup(self@, name@, uri@) is None,
            documents_listed(self@),
    {
        let n = self.docs.len();
        assert forall|k: Seq<char>| #[trigger] self@.documents.contains_key(k) <==> self@.uris.contains(k) by {
            assert(self@.documents.contains_key(k) == self.docs.map().contains_key(k));
        }
        assert(documents_listed(self@));
        match self.init_functions.get(name) {
            Some(doc) => {
                return Some(external_to_docentry(doc));
            },
            None => {},
        }
        match self.docs.get(uri) {
            Some(doc) => {
                match entry_in_document(doc, name) {
                    Some(e) => {
                        return Some(e);
                    },
                    None => {},
                }
            },
            None => {},
        }
        let mut i: usize = 0;
        while i < n
            invariant
                documents_listed(self@),
                i <= n,
                n == self@.uris.len(),
                other_entry(self@, name@, uri@, i as int) is None,
                !self@.init_functions.contains_key(name@),
                !(self@.documents.contains_key(uri@) && document_entry(
                    self@.documents[uri@],
                    name@,
                ) is Some),
            decreases n - i,
        {
            let other = self.docs.name_at(i);
            if !str_equals(other.as_str(), uri) {
                let d = self.docs.value_at(i);
                assert(self@.documents[self@.uris[i as int]] == d@);
                match entry_in_document(d, name) {
                    Some(e) => {
                        assert(other_entry(self@, name@, uri@, i + 1) == Some(e@));
                        proof {
                            lemma_other_entry_stays(self@, name@, uri@, i + 1, n as int);
                        }
                        return Some(e);
                    },
                    None => {},
                }
            }
            i = i + 1;
        }
        match self.builtins.functions.get(name) {
            Some(entry) => {
                return Some(entry.duplicate());
            },
            None => {},
        }
        match self.builtins.constants.get(name) {
            Some(entry) => Some(entry.duplicate()),
            None => None,
        }
    }

    /// Where `name` is defined, for document `current_uri`.
    pub fn goto_definition(&self, name: &str, current_uri: &str) -> (r: Option<Location>)
        ensures
            r matches Some(l) ==> definition(self@, name@, current_uri@) == Some(l@),
            r is None ==> definition(self@, name@, current_uri@) is None,
    {
        match self.init_definitions.get(name) {
            Some(loc) => {
                return Some(loc.duplicate());
            },
            None => {},
        }
        match self.docs.get(current_uri) {
            Some(doc) => {
                match doc.definitions.get(name) {
                    Some(loc) => {
                        return Some(loc.duplicate());
                    },
                    None => {},
                }
            },
            None => {},
        }
        let n = self.docs.len();
        let mut i: usize = 0;
        while i < n
            invariant
                i <= n,
                n == self@.uris.len(),
                other_definition(self@, name@, current_uri@, i as int) is None,
                !self@.init_definitions.contains_key(name@),
                !(self@.documents.contains_key(current_uri@)
                    && self@.documents[current_uri@].definitions.contains_key(name@)),
            decreases n - i,
        {
            let other = self.docs.name_at(i);
            if !str_equals(other.as_str(), current_uri) {
                let d = self.docs.value_at(i);
                assert(self@.documents[self@.uris[i as int]] == d@);
                match d.definitions.get(name) {
                    Some(loc) => {
                        assert(other_definition(self@, name@, current_uri@, i + 1) == Some(loc@));
                        proof {
                            lemma_other_definition_stays(self@, name@, current_uri@, i + 1, n as int);
                        }
                        return Some(loc.duplicate());
                    },
                    None => {},
                }
            }
            i = i + 1;
        }
        None
    }

    /// The user functions offered for document `uri`.
    pub fn all_user_functions(&self, uri: &str) -> (r: Vec<(String, DocEntry)>)
        ensures
            pair_views(r@) == user_functions(self@, uri@),
    {
        let mut result: Vec<(String, DocEntry)> = Vec::new();
        append_documented(&mut result, &self.init_functions);
        assert(pair_views(result@) =~= documented(self@.init_function_names, self@.init_functions));
        match self.docs.get(uri) {
            Some(doc) => {
                let ghost init = pair_views(result@);
                append_documented(&mut result, &doc.external_docs);
                let ghost base = pair_views(result@);
                assert(base =~= init + documented(doc@.external_names, doc@.external_docs));
                let ghost dn = doc@.definition_names;
                let n = doc.definitions.len();
                let mut i: usize = 0;
                assert(dn.subrange(0, 0) =~= Seq::<Seq<char>>::empty());
                while i < n
                    invariant
                        i <= n,
                        n == dn.len(),
                        dn == doc@.definition_names,
                        pair_views(result@) == with_user_names(base, dn.subrange(0, i as int)),
                    decreases n - i,
                {
                    let name = doc.definitions.name_at(i);
                    let ghost sub = dn.subrange(0, i + 1);
                    assert(sub.drop_last() =~= dn.subrange(0, i as int));
                    assert(sub.last() == name@);
                    if !listed(&result, name.as_str()) {
                        let ghost before = pair_views(result@);
                        let e = make_user_entry(name.as_str());
                        result.push((name.clone(), e));
                        assert(pair_views(result@) =~= before.push((name@, user_entry(name@))));
                    }
                    i = i + 1;
                }
                assert(dn.subrange(0, dn.len() as int) =~= dn);
            },
            None => {},
        }
        result
    }

    /// Whether every diagnostic of document `uri` can be made: each error
    /// node's snippet holds whole characters of the text.
    pub fn can_report_diagnostics(&self, uri: &str) -> (b: bool)
        ensures
            b == (!self@.documents.contains_key(uri@) || diagnostics_defined(self@.documents[uri@])),
    {
        let doc = match self.docs.get(uri) {
            Some(d) => d,
            None => {
                return true;
            },
        };
        let nodes = preorder_nodes(&doc.tree);
        let ghost ns = derefs(nodes@);
        let src = doc.text.as_str().as_bytes();
        let mut i: usize = 0;
        while i < nodes.len()
            invariant
                i <= nodes@.len(),
                ns == derefs(nodes@),
                ns == preorder(doc.tree),
                src@ == encode_utf8(doc.text@),
                self@.documents.contains_key(uri@) && self@.documents[uri@] == doc@,
                forall|j: int| 0 <= j < i ==> snippet_defined(src@, #[trigger] ns[j]),
            decreases nodes@.len() - i,
        {
            let n = nodes[i];
            assert(ns[i as int] == *n);
            if n.is_error && !n.is_missing {
                let end = if n.start_byte < src.len() && src.len() - n.start_byte > 40 {
                    n.start_byte + 40
                } else {
                    src.len()
                };
                if text_between(src, n.start_byte, end).is_none() {
                    assert(preorder(doc@.tree)[i as int] == *n);
                    assert(!snippet_defined(encode_utf8(doc@.text), preorder(doc@.tree)[i as int]));
                    assert(0 <= i < preorder(doc@.tree).len());
                    assert(!diagnostics_defined(doc@));
                    return false;
                }
            }
            i = i + 1;
        }
        true
    }

    /// The syntax errors of document `uri`: one diagnostic for each error
    /// or missing node of its tree, in the order of a walk of the tree.
    pub fn diagnostics(&self, uri: &str) -> (r: Vec<Diagnostic>)
        requires
            !self@.documents.contains_key(uri@) || diagnostics_defined(self@.documents[uri@]),
        ensures
            diagnostic_views(r@) == diagnostics_of(self@, uri@),
    {
        let doc = match self.docs.get(uri) {
            Some(d) => d,
            None => {
                let r: Vec<Diagnostic> = Vec::new();
                assert(diagnostic_views(r@) =~= Seq::<DiagnosticView>::empty());
                return r;
            },
        };
        let nodes = preorder_nodes(&doc.tree);
        let ghost ns = derefs(nodes@);
        let src = doc.text.as_str().as_bytes();
        let mut diags: Vec<Diagnostic> = Vec::new();
        assert(diagnostic_views(diags@) =~= diagnostics_among(src@, ns.subrange(0, 0)));
        let mut i: usize = 0;
        while i < nodes.len()
            invariant
                i <= nodes@.len(),
                ns == derefs(nodes@),
                ns == preorder(doc.tree),
                src@ == encode_utf8(doc.text@),
                diagnostics_defined(doc@),
                diagnostic_views(diags@) == diagnostics_among(src@, ns.subrange(0, i as int)),
            decreases nodes@.len() - i,
        {
            let n = nodes[i];
            let ghost sub = ns.subrange(0, i + 1);
            assert(sub.drop_last() =~= ns.subrange(0, i as int));
            assert(sub.last() == *n);
            assert(ns[i as int] == *n);
            if n.is_error || n.is_missing {
                let mut message = String::new();
                if n.is_missing {
                    append_str(&mut message, "Missing '");
                    append_str(&mut message, n.kind.as_str());
                    append_str(&mut message, "'");
                } else {
                    let end = if n.start_byte < src.len() && src.len() - n.start_byte > 40 {
                        n.start_byte + 40
                    } else {
                        src.len()
                    };
                    assert(preorder(doc@.tree)[i as int] == *n);
                    assert(snippet_defined(src@, *n));
                    let snippet = match text_between(src, n.start_byte, end) {
                        Some(t) => t,
                        None => String::new(),
                    };
                    append_str(&mut message, "Syntax error: '");
                    append_str(&mut message, snippet.as_str());
                    append_str(&mut message, "'");
                }
                let d = Diagnostic {
                    range: range_of(n),
                    severity: Severity::Error,
                    message,
                    source: String::from_str("maxima-lsp"),
                };
                let ghost before = diagnostic_views(diags@);
                assert(d@ == diagnostic_of(src@, *n));
                diags.push(d);
                assert(diagnostic_views(diags@) =~= before.push(diagnostic_of(src@, *n)));
            }
            i = i + 1;
        }
        assert(ns.subrange(0, ns.len() as int) =~= ns);
        diags
    }

    /// The built-in documentation of the index.
    pub fn builtins(&self) -> (b: &Builtins)
        ensures
            entry_views(b.functions.map()) == self@.builtin_functions,
            b.functions.names() == self@.builtin_function_names,
            entry_views(b.constants.map()) == self@.builtin_constants,
            b.constants.names() == self@.builtin_constant_names,
            crate::docs::str_views(b.keywords@) == self@.keywords,
    {
        &self.builtins
    }

    /// The Maxima grammar of the index.
    pub fn maxima(&self) -> (r: &tree_sitter::Language)
        ensures
            *r == self@.grammar,
    {
        &self.maxima
    }

    /// Starts resolving the imports of `text`, the text of document `uri`,
    /// from the directory of its file, following them into the files they
    /// load.
    pub fn import_walk(&self, uri: &str, text: &str) -> (w: ImportWalk)
        ensures
            w@.follow,
            w@.base_dir == import_base(uri@) && w@.dir == import_base(uri@) && w@.next == 0,
            w@.search is None && w@.reading is None,
            w@.seen.len() == 0 && w@.queue.len() == 0 && w@.found.len() == 0,
            w@.docs.len() == 0 && w@.defs.len() == 0,
            crate::imports::import_specs_of(w@.specs, self@.grammar, text@),
    {
        let base = base_dir_of(uri);
        resolve_imports(text, base.as_str(), &self.maxima)
    }

    /// The next step of an import walk, resolved with the index's paths.
    pub fn walk_step(&mut self, walk: &mut ImportWalk) -> (r: WalkStep)
        ensures
            (final(walk)@, final(self)@.paths, r@) == walk_next(old(walk)@, old(self)@.paths),
            final(self)@ == (DatabaseView { paths: final(self)@.paths, ..old(self)@ }),
    {
        proof {
            use_type_invariant(&*self);
        }
        let mut paths = PathResolver::new(None, None, None, Vec::new(), NameMap::new());
        std::mem::swap(&mut paths, &mut self.paths);
        let step = walk.next_step(&mut paths);
        self.paths = paths;
        step
    }

    /// Starts resolving `name` from `base_dir`.
    pub fn resolve_path(&self, name: &str, base_dir: &str) -> (s: PathSearch)
        ensures
            s@ == start_search(self@.paths, name@, None, base_dir@),
    {
        self.paths.resolve(name, base_dir)
    }

    /// Remembers what a finished search found.
    pub fn remember(&mut self, search: &PathSearch)
        ensures
            final(self)@ == (DatabaseView { paths: remembered(old(self)@.paths, search@), ..old(self)@ }),
    {
        proof {
            use_type_invariant(&*self);
        }
        let mut paths = PathResolver::new(None, None, None, Vec::new(), NameMap::new());
        std::mem::swap(&mut paths, &mut self.paths);
        paths.remember(search);
        self.paths = paths;
    }

    /// Indexes document `uri` from its text, its tree and its finished
    /// import walk, replacing what was indexed for it before.
    pub fn upsert_tree(
        &mut self,
        uri: &str,
        text: &str,
        version: i32,
        tree: SyntaxNode,
        walk: &ImportWalk,
    )
        ensures
            final(self)@.documents.contains_key(uri@),
            indexed_document(uri@, text@, version, tree, walk@, final(self)@.documents[uri@]),
            final(self)@.documents == old(self)@.documents.insert(uri@, final(self)@.documents[uri@]),
            old(self)@.documents.contains_key(uri@) ==> final(self)@.uris == old(self)@.uris,
            !old(self)@.documents.contains_key(uri@) ==> final(self)@.uris == old(self)@.uris.push(uri@),
            final(self)@ == (DatabaseView {
                documents: final(self)@.documents,
                uris: final(self)@.uris,
                ..old(self)@
            }),
    {
        let path = match url_file_path(uri) {
            Some(p) => p,
            None => String::new(),
        };
        let lang = extension_to_lang(path.as_str());
        let mut definitions = collect_definitions(&tree, text, uri);
        merge_missing_defs(&mut definitions, walk.definitions());
        let mut external_docs: NameMap<ExternalDoc> = NameMap::new();
        assert(external_views(external_docs.map()) =~= Map::<Seq<char>, ExternalDocView>::empty());
        merge_docs(&mut external_docs, walk.docs());
        assert(external_views(external_docs.map()) =~= walk@.docs);
        let doc = Document {
            uri: String::from_str(uri),
            text: String::from_str(text),
            version,
            tree,
            lang,
            external_docs,
            definitions,
        };
        let ghost dv = doc@;
        let ghost before = self.docs.map();
        assert(document_views(before).contains_key(uri@) == before.contains_key(uri@));
        proof {
            use_type_invariant(&*self);
        }
        let mut docs = NameMap::new();
        std::mem::swap(&mut docs, &mut self.docs);
        docs.insert(String::from_str(uri), doc);
        self.docs = docs;
        assert(document_views(self.docs.map()) =~= document_views(before).insert(uri@, dv));
    }

    /// Indexes document `uri` from its text and finished import walk: the
    /// text is parsed as Common Lisp or Maxima by the extension of the
    /// document's file. Returns `false`, and changes nothing, when the
    /// parser gives no tree.
    pub fn upsert(&mut self, uri: &str, text: &str, version: i32, walk: &ImportWalk) -> (b: bool)
        ensures
            b <==> document_parses(old(self)@, uri@),
            b ==> document_tree(old(self)@, uri@, text@, final(self)@.documents[uri@].tree),
            !b ==> final(self)@ == old(self)@,
            b ==> final(self)@.documents.contains_key(uri@) && indexed_document(
                uri@,
                text@,
                version,
                final(self)@.documents[uri@].tree,
                walk@,
                final(self)@.documents[uri@],
            ) && final(self)@.documents == old(self)@.documents.insert(
                uri@,
                final(self)@.documents[uri@],
            ) && (old(self)@.documents.contains_key(uri@) ==> final(self)@.uris == old(self)@.uris)
                && (!old(self)@.documents.contains_key(uri@) ==> final(self)@.uris == old(
                self,
            )@.uris.push(uri@)) && final(self)@ == (DatabaseView {
                documents: final(self)@.documents,
                uris: final(self)@.uris,
                ..old(self)@
            }),
    {
        let path = match url_file_path(uri) {
            Some(p) => p,
            None => String::new(),
        };
        let tree = match extension_to_lang(path.as_str()) {
            Lang::CommonLisp => {
                let lisp = commonlisp_language();
                parse_with(&lisp, text)
            },
            Lang::Maxima => parse_with(&self.maxima, text),
        };
        match tree {
            Some(t) => {
                self.upsert_tree(uri, text, version, t, walk);
                true
            },
            None => false,
        }
    }
}

// ---------------------------------------------------------------------
// The init file

/// The files that may hold the user's init file, in the order they are
/// tried.
pub open spec fn init_candidates(home: Seq<char>) -> Seq<Seq<char>> {
    seq![home + "/.maxima/maxima-init.mac"@, home + "/.maxima-init.mac"@]
}

/// The files that may hold the init file of a user whose home is `home`.
pub fn init_file_candidates(home: &str) -> (r: Vec<String>)
    ensures
        crate::docs::string_views(r@) == init_candidates(home@),
{
    let mut a = String::from_str(home);
    append_str(&mut a, "/.maxima/maxima-init.mac");
    let mut b = String::from_str(home);
    append_str(&mut b, "/.maxima-init.mac");
    let r = vec![a, b];
    assert(crate::docs::string_views(r@) =~= init_candidates(home@));
    r
}

/// An init file being indexed: what it documents and defines itself, and
/// the walk that follows its imports.
pub struct InitFile {
    pub docs: NameMap<ExternalDoc>,
    pub defs: NameMap<Location>,
    pub walk: ImportWalk,
}

/// Starts indexing the init file `path` with text `content`: `None`, so
/// that the next candidate is tried, when the text has no Maxima tree or
/// the path no `file:` URL. Its imports are followed from its directory
/// (or `.`).
pub fn start_init_file(path: &str, content: &str, maxima: &tree_sitter::Language) -> (r: Option<InitFile>)
    ensures
        r is Some <==> accepted(*maxima) && crate::pathname::is_absolute_spec(path@),
        r matches Some(f) ==> f.walk@.follow && f.walk@.base_dir == (match parent_spec(path@) {
            Some(d) => d,
            None => "."@,
        }) && f.walk@.dir == f.walk@.base_dir && f.walk@.next == 0 && f.walk@.search is None
            && f.walk@.reading is None && f.walk@.seen.len() == 0 && f.walk@.queue.len() == 0
            && f.walk@.found.len() == 0
            && f.walk@.docs.len() == 0 && f.walk@.defs.len() == 0
            && crate::imports::import_specs_of(f.walk@.specs, *maxima, content@),
        r matches Some(f) ==> (exists|t: SyntaxNode|
            parse_of(t, *maxima, content@) && location_views(f.defs.map()) == definitions_in(
                content.spec_bytes(),
                crate::lsp::file_url_of(path@),
                tour(t),
            )) && crate::docstring::docstrings_result(external_views(f.docs.map()), *maxima, content@),
{
    let tree = match parse_with(maxima, content) {
        Some(t) => t,
        None => {
            return None;
        },
    };
    let uri = match file_url(path) {
        Some(u) => u,
        None => {
            return None;
        },
    };
    let docs = extract_docstrings(content, maxima);
    let defs = collect_definitions(&tree, content, uri.as_str());
    let base = match parent(path) {
        Some(d) => d,
        None => String::from_str("."),
    };
    let walk = resolve_imports(content, base.as_str(), maxima);
    Some(InitFile { docs, defs, walk })
}

impl InitFile {
    /// What the init file gives once its walk is done: its documentation
    /// with that of its imports (an import's record replacing the file's
    /// own of the same name), and its definitions with those of its imports
    /// for names it does not define.
    pub fn finish(self) -> (r: (NameMap<ExternalDoc>, NameMap<Location>))
        ensures
            external_views(r.0.map()) == external_views(self.docs.map()).union_prefer_right(
                self.walk@.docs,
            ),
            location_views(r.1.map()) == self.walk@.defs.union_prefer_right(
                location_views(self.defs.map()),
            ),
    {
        let InitFile { docs, defs, walk } = self;
        let mut docs = docs;
        let mut defs = defs;
        merge_docs(&mut docs, walk.docs());
        merge_missing_defs(&mut defs, walk.definitions());
        (docs, defs)
    }
}

} // verus!
