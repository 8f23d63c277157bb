use maxima_lsp::imports::{
    extract_import_from_call, find_lisp_imports, import_module_at_position, load_target_at_position,
    maxima_imports_in, resolve_import_path, resolve_imports, ImportSpec, ImportWalk, WalkStep,
};
use maxima_lsp::name_map::NameMap;
use maxima_lsp::paths::{PathResolver, Probe, ProbeAnswer, SearchStep};
use maxima_lsp::syntax::SyntaxNode;

fn node(kind: &str, named: bool, start: usize, end: usize, children: Vec<SyntaxNode>) -> SyntaxNode {
    SyntaxNode {
        kind: kind.to_string(),
        named,
        is_error: false,
        is_missing: false,
        start_byte: start,
        end_byte: end,
        start_row: 0,
        start_column: start,
        end_row: 0,
        end_column: end,
        children,
    }
}

fn leaf(kind: &str, named: bool, start: usize, end: usize) -> SyntaxNode {
    node(kind, named, start, end, Vec::new())
}

/// `name(arg)` at `at`, the argument a leaf of kind `arg_kind`.
fn call(at: usize, name: &str, arg_kind: &str, arg_len: usize) -> SyntaxNode {
    let n = name.len();
    node("function_call", true, at, at + n + arg_len + 2, vec![
        leaf("identifier", true, at, at + n),
        leaf("(", false, at + n, at + n + 1),
        leaf(arg_kind, true, at + n + 1, at + n + 1 + arg_len),
        leaf(")", false, at + n + 1 + arg_len, at + n + 2 + arg_len),
    ])
}

fn packages(specs: &[ImportSpec]) -> Vec<String> {
    specs.iter().map(|s| s.package.clone()).collect()
}

#[test]
fn test_find_lisp_imports_load() {
    let src = r#"(load "numerical/fzero")"#;
    assert_eq!(packages(&find_lisp_imports(src)), vec!["numerical/fzero"]);
}

#[test]
fn lisp_imports_of_symbols_and_other_forms() {
    assert_eq!(packages(&find_lisp_imports("(batch foo \"bar\")")), vec!["foo", "bar"]);
    assert!(find_lisp_imports("(defun f (x) x)").is_empty());
}

#[test]
fn maxima_imports_of_load_batch_and_import() {
    let src = "load(\"utils\");import(colors);batch(\"setup\");";
    let a = call(0, "load", "string", 7);
    let b = call(14, "import", "identifier", 6);
    let c = call(29, "batch", "string", 7);
    let tree = node("source_file", true, 0, src.len(), vec![a, b, c]);
    assert_eq!(packages(&maxima_imports_in(&tree, src)), vec!["utils", "colors", "setup"]);
}

#[test]
fn maxima_import_with_version_list() {
    let src = "import(colors, [\"1.0.0\"]);";
    let list = node("list", true, 15, 24, vec![leaf("[", false, 15, 16), leaf("string", true, 16, 23), leaf("]", false, 23, 24)]);
    let c = node("function_call", true, 0, 25, vec![
        leaf("identifier", true, 0, 6),
        leaf("(", false, 6, 7),
        leaf("identifier", true, 7, 13),
        leaf(",", false, 13, 14),
        list,
        leaf(")", false, 24, 25),
    ]);
    let spec = extract_import_from_call(&c, src).unwrap();
    assert_eq!(spec.package, "colors");
    assert_eq!(spec.version.as_deref(), Some("1.0.0"));
}

#[test]
fn other_calls_are_no_imports() {
    let src = "print(\"utils\");";
    let c = call(0, "print", "string", 7);
    assert!(extract_import_from_call(&c, src).is_none());
}

#[test]
fn load_target_under_the_cursor() {
    let src = "load(\"draw\")$";
    let tree = node("source_file", true, 0, 13, vec![call(0, "load", "string", 6), leaf("$", false, 12, 13)]);
    let (name, range) = load_target_at_position(&tree, 7, src).unwrap();
    assert_eq!(name, "draw");
    assert_eq!((range.start_byte, range.end_byte), (5, 11));
    assert_eq!(import_module_at_position(&tree, 6, src), Some("draw".to_string()));
    assert_eq!(import_module_at_position(&tree, 1, src), Some("load".to_string()));
    assert_eq!(import_module_at_position(&tree, 12, src), None);
}

fn resolver() -> PathResolver {
    PathResolver::new(None, None, None, Vec::new(), NameMap::new())
}

#[test]
fn resolve_import_path_searches_base_directory() {
    let r = resolver();
    let mut s = resolve_import_path("helper", "/tmp/q", &r);
    let found = loop {
        match s.next_step() {
            SearchStep::Done(p) => break p,
            SearchStep::Probe(Probe::IsFile(p)) => s.answer(ProbeAnswer::Flag(p == "/tmp/q/helper.mac")),
            SearchStep::Probe(_) => s.answer(ProbeAnswer::Flag(false)),
        }
    };
    assert_eq!(found, Some("/tmp/q/helper.mac".to_string()));
}

/// Runs a walk against a file system of `files` (path and text).
fn drive(walk: &mut ImportWalk, resolver: &mut PathResolver, files: &[(&str, &str)]) -> Vec<String> {
    let lang: tree_sitter::Language = tree_sitter_commonlisp::LANGUAGE_COMMONLISP.into();
    let mut reads = Vec::new();
    loop {
        match walk.next_step(resolver) {
            WalkStep::Done => return reads,
            WalkStep::Probe(Probe::IsFile(p)) => walk.answer(ProbeAnswer::Flag(files.iter().any(|(f, _)| *f == p))),
            WalkStep::Probe(_) => walk.answer(ProbeAnswer::Flag(false)),
            WalkStep::Read(p) => {
                let text = files.iter().find(|(f, _)| *f == p).map(|(_, t)| t.to_string());
                reads.push(p);
                walk.file_read(text, &lang);
            }
        }
    }
}

#[test]
fn walk_follows_lisp_loads_and_reads_each_file_once() {
    let files = [
        ("/w/a.lisp", "(load \"b\")\n(defun $fa (x) x)"),
        ("/w/b.lisp", "(load \"a\")\n;;; Bee\n(defun $fb (y) y)"),
    ];
    let specs = vec![ImportSpec { package: "a".to_string(), version: None }, ImportSpec { package: "a".to_string(), version: None }];
    let mut r = resolver();
    let mut walk = ImportWalk::start(specs, "/w", true);
    let reads = drive(&mut walk, &mut r, &files);
    assert_eq!(reads, vec!["/w/a.lisp".to_string(), "/w/b.lisp".to_string()]);
    assert_eq!(walk.found(), &vec!["/w/a.lisp".to_string(), "/w/b.lisp".to_string()]);
    let docs = walk.docs();
    assert_eq!(docs.get("$fb").unwrap().doc, "Bee");
    assert_eq!(docs.get("$fb").unwrap().source_file, "/w/b.lisp");
    assert!(walk.definitions().contains_key("$fa"));
    assert_eq!(walk.definitions().get("$fa").unwrap().uri, "file:///w/a.lisp");
}

#[test]
fn finding_imports_does_not_read_files() {
    let lang: tree_sitter::Language = tree_sitter_commonlisp::LANGUAGE_COMMONLISP.into();
    let mut r = resolver();
    let mut walk = resolve_imports("(load \"a\")", "/w", &lang);
    let reads = drive(&mut walk, &mut r, &[("/w/a.lisp", "")]);
    assert_eq!(reads, vec!["/w/a.lisp".to_string()]);
    let mut listing = maxima_lsp::imports::find_imports("(load \"a\")", "/w", &lang);
    let reads = drive(&mut listing, &mut r, &[("/w/a.lisp", "")]);
    assert!(reads.is_empty());
    assert_eq!(listing.found(), &vec!["/w/a.lisp".to_string()]);
}

#[test]
fn walk_reads_a_path_spelled_twice_once() {
    let files = [("/w/a.lisp", "(defun $fa (x) x)")];
    let specs = vec![
        ImportSpec { package: "a".to_string(), version: None },
        ImportSpec { package: "./a".to_string(), version: None },
    ];
    let mut r = resolver();
    let mut walk = ImportWalk::start(specs, "/w", true);
    let reads = drive(&mut walk, &mut r, &files);
    assert_eq!(reads.len(), 1);
    assert_eq!(walk.found().len(), 1);
}

#[test]
fn lisp_files_are_recognised_in_any_case() {
    assert!(maxima_lsp::imports::is_lisp_file("/x/A.LISP"));
    assert!(maxima_lsp::imports::is_lisp_file("/x/b.Lsp"));
    assert!(!maxima_lsp::imports::is_lisp_file("/x/b.mac"));
    assert!(!maxima_lsp::imports::is_lisp_file("/x/lisp"));
}
