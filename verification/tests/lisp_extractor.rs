use maxima_lsp::lisp_extractor::{collect_lisp_defs, extract_lisp_docs, extract_preceding_comment};

#[test]
fn test_extract_defmfun() {
    let src = "(defmfun $solve (expr var) (body))";
    let docs = extract_lisp_docs(src);
    assert_eq!(docs.len(), 1, "should find 1 definition");
    let doc = docs.get("$solve").unwrap();
    assert_eq!(doc.name, "$solve");
    assert!(doc.signature.contains("expr"));
    assert!(doc.signature.contains("var"));
}

#[test]
fn test_extract_defun() {
    let src = "(defun solve-poly (expr) (process expr))";
    let docs = extract_lisp_docs(src);
    assert_eq!(docs.len(), 1);
    let doc = docs.get("solve-poly").unwrap();
    assert_eq!(doc.name, "solve-poly");
}

#[test]
fn test_extract_defvar() {
    let src = "(defvar $version \"5.47.0\")";
    let docs = extract_lisp_docs(src);
    assert_eq!(docs.len(), 1);
    let doc = docs.get("$version").unwrap();
    assert_eq!(doc.name, "$version");
}

#[test]
fn test_extract_multiple() {
    let src = "(defmfun $solve (expr var) (body))
(defun helper (x) (x))
(defvar $maxdepth 100)
(defmvar $debug nil)
(defprop $f t $translator)
(defmspec $integrate (expr var) (expr))";
    let docs = extract_lisp_docs(src);
    assert_eq!(docs.len(), 6);
    assert!(docs.contains_key("$solve"));
    assert!(docs.contains_key("helper"));
    assert!(docs.contains_key("$maxdepth"));
    assert!(docs.contains_key("$debug"));
    assert!(docs.contains_key("$f"));
    assert!(docs.contains_key("$integrate"));
}

#[test]
fn test_extract_with_comment() {
    let src = ";;; Solve an equation
;;; Uses polynomial solver
(defmfun $solve (expr var) (body))";
    let docs = extract_lisp_docs(src);
    assert_eq!(docs.len(), 1);
    let doc = docs.get("$solve").unwrap();
    assert!(doc.doc.contains("Solve"));
    assert!(doc.doc.contains("polynomial"));
}

#[test]
fn test_collect_lisp_defs() {
    let src = "(defmfun $foo (x) (body))\n(defvar $bar 42)";
    let defs = collect_lisp_defs(src, "file:///tmp/test.lisp");
    assert_eq!(defs.len(), 2);
    assert!(defs.contains_key("$foo"));
    assert!(defs.contains_key("$bar"));
}

#[test]
fn test_empty_source() {
    let docs = extract_lisp_docs("");
    assert!(docs.is_empty());
}

#[test]
fn test_no_definitions() {
    let src = "(+ 1 2 3)\n(format t \"hello\")";
    let docs = extract_lisp_docs(src);
    assert!(docs.is_empty());
}

#[test]
fn test_nested_defs_outer_only() {
    let src = "(defun outer (x) (defun inner (y) y))";
    let docs = extract_lisp_docs(src);
    assert_eq!(docs.len(), 1, "should only find outer def (skips children)");
    assert!(docs.contains_key("outer"));
}

#[test]
fn lisp_signature_and_docs_are_exact() {
    let src = ";;; Solve an equation\n;;; Uses polynomial solver\n(defmfun $solve (expr var) (body))";
    let docs = extract_lisp_docs(src);
    let doc = docs.get("$solve").unwrap();
    assert_eq!(doc.signature, "$solve(expr var)");
    assert_eq!(doc.doc, "Solve an equation Uses polynomial solver");
    assert_eq!(doc.source_file, "");
}

#[test]
fn lisp_definition_locations_count_lines_and_columns() {
    let src = "(defmfun $foo (x) (body))\n  (defvar $bar 42)";
    let defs = collect_lisp_defs(src, "file:///tmp/test.lisp");
    let foo = defs.get("$foo").unwrap();
    assert_eq!(foo.uri, "file:///tmp/test.lisp");
    assert_eq!((foo.range.start.line, foo.range.start.character), (0, 0));
    let bar = defs.get("$bar").unwrap();
    assert_eq!((bar.range.start.line, bar.range.start.character), (1, 2));
    assert_eq!(bar.range.end.character, 3);
}

#[test]
fn preceding_comment_stops_at_code() {
    let src = "(foo)\n;; first\n;;; second\n(defun f () 1)";
    let start = src.find("(defun").unwrap();
    assert_eq!(extract_preceding_comment(src, start), "first second");
    assert_eq!(extract_preceding_comment(src, 0), "");
}
