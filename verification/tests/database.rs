use maxima_lsp::docstring::ExternalDoc;
use maxima_lsp::db::{base_dir_of, extension_to_lang, init_file_candidates, start_init_file, Database, DatabaseError, Lang};
use maxima_lsp::imports::ImportWalk;
use maxima_lsp::name_map::NameMap;
use maxima_lsp::paths::PathResolver;
use maxima_lsp::syntax::SyntaxNode;

fn node(kind: &str, named: bool, start: usize, end: usize, children: Vec<SyntaxNode>) -> SyntaxNode {
    SyntaxNode {
        kind: kind.to_string(),
        named,
        is_error: false,
        is_missing: false,
        start_byte: start,
        end_byte: end,
        start_row: 1,
        start_column: start,
        end_row: 1,
        end_column: end,
        children,
    }
}

fn leaf(kind: &str, named: bool, start: usize, end: usize) -> SyntaxNode {
    node(kind, named, start, end, Vec::new())
}

fn lisp() -> tree_sitter::Language {
    tree_sitter_commonlisp::LANGUAGE_COMMONLISP.into()
}

fn database() -> Database {
    let paths = PathResolver::new(None, None, None, Vec::new(), NameMap::new());
    match Database::new(lisp(), paths, NameMap::new(), NameMap::new()) {
        Ok(db) => db,
        Err(e) => panic!("{}", e.message()),
    }
}

/// `myAdd(a, b) := a + b$` as a tree.
fn user_tree() -> (String, SyntaxNode) {
    let src = "myAdd(a, b) := a + b$".to_string();
    let call = node("function_call", true, 0, 11, vec![leaf("identifier", true, 0, 5)]);
    let def = node("binary_expression", true, 0, 20, vec![call, leaf(":=", false, 12, 14), leaf("expression", true, 15, 20)]);
    (src, node("source_file", true, 0, 21, vec![def]))
}

fn done_walk() -> ImportWalk {
    ImportWalk::start(Vec::new(), "/tmp", true)
}

#[test]
fn extension_decides_language() {
    assert_eq!(extension_to_lang("/a/b.lisp"), Lang::CommonLisp);
    assert_eq!(extension_to_lang("/a/b.lsp"), Lang::CommonLisp);
    assert_eq!(extension_to_lang("/a/b.mac"), Lang::Maxima);
    assert_eq!(extension_to_lang("/a/b"), Lang::Maxima);
}

#[test]
fn database_indexes_document_and_looks_it_up() {
    let mut db = database();
    let (src, tree) = user_tree();
    let uri = "file:///tmp/user.mac";
    db.upsert_tree(uri, &src, 1, tree, &done_walk());
    let doc = db.get(uri).expect("document");
    assert!(doc.definitions.contains_key("myAdd"));
    assert_eq!(doc.version, 1);
    let entry = db.lookup_doc("myAdd", uri).expect("lookup");
    assert_eq!(entry.category, "user");
    assert_eq!(entry.signature, "myAdd (user-defined)");
    let loc = db.goto_definition("myAdd", uri).expect("goto");
    assert_eq!(loc.uri, uri);
    assert_eq!(loc.range.start.line, 1);
    let other = db.goto_definition("myAdd", "file:///tmp/other.mac").expect("goto from another document");
    assert_eq!(other.uri, uri);
    let diff = db.lookup_doc("diff", uri).expect("builtin diff");
    assert_eq!(diff.category, "calculus");
    assert!(db.lookup_doc("%pi", uri).is_some());
    assert!(db.lookup_doc("noSuchName", uri).is_none());
    assert!(db.diagnostics(uri).is_empty());
    db.remove(uri);
    assert!(db.get(uri).is_none());
    assert!(db.goto_definition("myAdd", uri).is_none());
}

#[test]
fn database_reports_error_and_missing_nodes() {
    let mut db = database();
    let src = "f(x := x$\n";
    let mut err = leaf("ERROR", true, 1, 9);
    err.is_error = true;
    let mut missing = leaf(")", false, 9, 9);
    missing.is_missing = true;
    let tree = node("source_file", true, 0, 10, vec![leaf("identifier", true, 0, 1), err, missing]);
    let uri = "file:///tmp/bad.mac";
    db.upsert_tree(uri, src, 1, tree, &done_walk());
    assert!(db.can_report_diagnostics(uri));
    let diags = db.diagnostics(uri);
    assert_eq!(diags.len(), 2);
    assert_eq!(diags[0].message, "Syntax error: '(x := x$\n'");
    assert_eq!(diags[1].message, "Missing ')'");
    assert_eq!(diags[0].source, "maxima-lsp");
}

#[test]
fn user_functions_list_definitions_once() {
    let mut db = database();
    let (src, tree) = user_tree();
    let uri = "file:///tmp/user.mac";
    db.upsert_tree(uri, &src, 1, tree, &done_walk());
    let fns = db.all_user_functions(uri);
    assert_eq!(fns.len(), 1);
    assert_eq!(fns[0].0, "myAdd");
    assert_eq!(fns[0].1.category, "user");
}

#[test]
fn upsert_parses_lisp_documents() {
    let mut db = database();
    let uri = "file:///tmp/x.lisp";
    assert!(db.upsert(uri, "(defun f (x) x)", 3, &done_walk()));
    assert_eq!(db.get(uri).unwrap().lang, Lang::CommonLisp);
    assert_eq!(db.get(uri).unwrap().version, 3);
}

#[test]
fn base_directory_of_a_document() {
    assert_eq!(base_dir_of("file:///tmp/dir/user.mac"), "/tmp/dir");
    assert_eq!(base_dir_of("not a url"), ".");
}

#[test]
fn init_file_candidates_in_order() {
    assert_eq!(
        init_file_candidates("/home/u"),
        vec!["/home/u/.maxima/maxima-init.mac".to_string(), "/home/u/.maxima-init.mac".to_string()]
    );
}

#[test]
fn init_file_needs_an_absolute_path() {
    assert!(start_init_file("relative/init.mac", "(defun f () 1)", &lisp()).is_none());
    let init = start_init_file("/home/u/.maxima/maxima-init.mac", "(defun f () 1)", &lisp()).expect("init");
    let (docs, defs) = init.finish();
    assert!(docs.is_empty());
    assert!(defs.is_empty());
}

#[test]
fn database_error_messages() {
    assert_eq!(DatabaseError::MaximaLanguage.message(), "Failed to set Maxima language");
    assert_eq!(DatabaseError::LispLanguage.message(), "Failed to set Common Lisp language");
}

#[test]
fn init_file_documentation_comes_first() {
    let mut init = NameMap::new();
    init.insert(
        "diff".to_string(),
        ExternalDoc {
            name: "diff".to_string(),
            signature: "diff(f)".to_string(),
            doc: "mine".to_string(),
            params: Vec::new(),
            return_doc: String::new(),
            examples: Vec::new(),
            source_file: "/home/u/.maxima/maxima-init.mac".to_string(),
        },
    );
    let paths = PathResolver::new(None, None, None, Vec::new(), NameMap::new());
    let db = match Database::new(lisp(), paths, init, NameMap::new()) {
        Ok(db) => db,
        Err(e) => panic!("{}", e.message()),
    };
    let e = db.lookup_doc("diff", "file:///tmp/a.mac").unwrap();
    assert_eq!(e.doc, "mine");
    assert_eq!(e.category, "user: /home/u/.maxima/maxima-init.mac");
}
