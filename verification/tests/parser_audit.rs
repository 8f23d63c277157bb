use maxima_lsp::parse::parse_commonlisp;
use maxima_lsp::syntax::SyntaxNode;

fn has_error(n: &SyntaxNode) -> bool {
    n.is_error || n.is_missing || n.children.iter().any(has_error)
}

#[test]
fn commonlisp_core_constructs_parse_cleanly() {
    let samples = [
        "(defmfun $draw (expr) (process expr))",
        "(defun helper (x) (+ x 1))",
        "(load \"draw/draw.lisp\")",
        "(in-package #:maxima)",
        "(in-package :maxima)",
        "#+(or ecl abcl) (load \"foo.lisp\")",
        "(defvar *foo* 42)",
        ";; comment\n(defun f (x) x)",
        "(defmspec $integrate (expr var) (expr))",
        "(defstruct (graph (:print-function (lambda (s d depth) s))) (size 0))",
        "(make-hash-table :test #'equal)",
        "($put '$graphs 2.0 '$version)",
    ];
    for src in samples {
        let tree = parse_commonlisp(src).expect("tree");
        assert!(!has_error(&tree), "expected clean parse for {src:?}");
    }
}

#[test]
fn unbalanced_lisp_reports_an_error() {
    let tree = parse_commonlisp("(defun f (x) x").expect("tree");
    assert!(has_error(&tree));
}

#[test]
fn captured_nodes_carry_no_children() {
    let lang: tree_sitter::Language = tree_sitter_commonlisp::LANGUAGE_COMMONLISP.into();
    let query = tree_sitter::Query::new(&lang, "(list_lit) @form").unwrap();
    let src = "(defun f (x) (+ x 1))";
    let matches = maxima_lsp::parse::query_captures(&lang, &query, src);
    assert!(matches.len() >= 3, "{}", matches.len());
    for m in &matches {
        for (name, node) in m {
            assert_eq!(name, "form");
            assert_eq!(node.kind, "list_lit");
            assert!(node.children.is_empty());
        }
    }
    let whole = parse_commonlisp(src).unwrap();
    assert!(!whole.children.is_empty());
}
