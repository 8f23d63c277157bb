use maxima_lsp::syntax::text_between;
use maxima_lsp::definitions::{
    collect_definitions, deepest_node_at, extract_load_argument, extract_name, identifier_at_position,
};
use maxima_lsp::docs::{parse_signature_for_snippet, Builtins, DocEntry};
use maxima_lsp::docstring::{docstrings_from_tree, external_to_docentry, parse_docstring_ext, ExternalDoc};
use maxima_lsp::lisp_extractor::{collect_lisp_defs, extract_lisp_docs};
use maxima_lsp::syntax::SyntaxNode;

/// A node of `src` spanning `start..end` on line 0.
fn node(kind: &str, named: bool, start: usize, end: usize, children: Vec<SyntaxNode>) -> SyntaxNode {
    SyntaxNode {
        kind: kind.to_string(),
        named,
        is_error: false,
        is_missing: false,
        start_byte: start,
        end_byte: end,
        start_row: 0,
        start_column: start,
        end_row: 0,
        end_column: end,
        children,
    }
}

fn leaf(kind: &str, named: bool, start: usize, end: usize) -> SyntaxNode {
    node(kind, named, start, end, Vec::new())
}

#[test]
fn parse_docstring_tags() {
    let comment = r#"/* Compute the square.
@param x - input value
@return the square of x
@example square(3) → 9
*/"#;
    let parsed = parse_docstring_ext(comment, "square");
    assert!(parsed.doc.contains("Compute the square"));
    assert_eq!(parsed.params.len(), 1);
    assert!(parsed.params[0].contains("x"));
    assert!(parsed.return_doc.contains("square"));
    assert_eq!(parsed.examples.len(), 1);
}

#[test]
fn parse_docstring_accepts_returns_alias() {
    let comment = "/* desc\n@returns a value */";
    let parsed = parse_docstring_ext(comment, "f");
    assert_eq!(parsed.return_doc, "a value");
}

#[test]
fn parse_docstring_joins_description_lines() {
    let parsed = parse_docstring_ext("  /* First line\n\n   second line\n@param a - one\n@param b - two */  ", "f");
    assert_eq!(parsed.doc, "First line second line");
    assert_eq!(parsed.params, vec!["a - one".to_string(), "b - two".to_string()]);
    assert_eq!(parsed.return_doc, "");
    assert!(parsed.examples.is_empty());
}

#[test]
fn lisp_extractor_and_defs() {
    let src = r#"
;;; Add numbers
(defmfun $add (a b) (+ a b))
(defvar $flag t)
"#;
    let docs = extract_lisp_docs(src);
    assert!(docs.contains_key("$add"));
    assert!(docs.get("$add").unwrap().doc.contains("Add"));
    assert!(docs.contains_key("$flag"));

    let defs = collect_lisp_defs(src, "file:///tmp/x.lisp");
    assert_eq!(defs.len(), 2);
}

#[test]
fn builtins_snippet_generation() {
    let entry = DocEntry::new(
        "solve(expr, var)  |  solve([eqns], [vars])",
        "Solve equations.",
        &[],
        "solutions",
        &[],
        "algebra",
    );
    let snip = entry.snippet("solve");
    assert!(snip.starts_with("solve("));
    assert!(snip.contains("${1:expr}"));
    assert!(snip.contains("${2:var}"));

    assert_eq!(parse_signature_for_snippet("kill(all)", "kill"), "kill(${1:all})");
    assert_eq!(parse_signature_for_snippet("timestamp()", "timestamp"), "timestamp()");
}

#[test]
fn snippet_of_nested_and_missing_parentheses() {
    assert_eq!(parse_signature_for_snippet("f(g(x), y)", "f"), "f(${1:g(x)}, ${2:y})");
    assert_eq!(parse_signature_for_snippet("%pi", "%pi"), "%pi");
    assert_eq!(parse_signature_for_snippet("h(a, , b)", "h"), "h(${1:a}, ${2:b})");
}

#[test]
fn builtins_contains_core_entries() {
    let b = Builtins::new();
    assert!(b.functions.contains_key("diff"));
    assert!(b.functions.contains_key("integrate"));
    assert!(b.functions.contains_key("load"));
    assert!(b.constants.contains_key("%pi"));
    assert!(b.keywords.contains(&"block"));
}

#[test]
fn builtin_diff_is_calculus() {
    let b = Builtins::new();
    assert_eq!(b.functions.get("diff").unwrap().category, "calculus");
    assert!(b.operators.contains(&":="));
}

#[test]
fn external_doc_becomes_user_entry() {
    let d = ExternalDoc {
        name: "inc".to_string(),
        signature: "inc(x)".to_string(),
        doc: "Increment".to_string(),
        params: vec!["x".to_string()],
        return_doc: "x + 1".to_string(),
        examples: Vec::new(),
        source_file: "/tmp/lib.mac".to_string(),
    };
    let e = external_to_docentry(&d);
    assert_eq!(e.category, "user: /tmp/lib.mac");
    assert_eq!(e.signature, "inc(x)");
    assert_eq!(e.params, vec!["x".to_string()]);
}

/// `f(x) := x$` as a tree: a binary expression whose left side is a call.
fn definition_tree(src: &str) -> SyntaxNode {
    assert_eq!(src, "f(x) := x$");
    let call = node("function_call", true, 0, 4, vec![
        leaf("identifier", true, 0, 1),
        leaf("(", false, 1, 2),
        leaf("identifier", true, 2, 3),
        leaf(")", false, 3, 4),
    ]);
    let def = node("binary_expression", true, 0, 9, vec![call, leaf(":=", false, 5, 7), leaf("identifier", true, 8, 9)]);
    node("source_file", true, 0, 10, vec![def, leaf("$", false, 9, 10)])
}

#[test]
fn collect_definitions_of_a_function_definition() {
    let src = "f(x) := x$";
    let tree = definition_tree(src);
    let defs = collect_definitions(&tree, src, "file:///tmp/d.mac");
    assert_eq!(defs.len(), 1);
    let loc = defs.get("f").unwrap();
    assert_eq!(loc.uri, "file:///tmp/d.mac");
    assert_eq!((loc.range.start.character, loc.range.end.character), (0, 9));
}

#[test]
fn collect_definitions_skips_other_operators() {
    let src = "a + b";
    let tree = node("source_file", true, 0, 5, vec![node("binary_expression", true, 0, 5, vec![
        leaf("identifier", true, 0, 1),
        leaf("+", false, 2, 3),
        leaf("identifier", true, 4, 5),
    ])]);
    assert!(collect_definitions(&tree, src, "file:///tmp/d.mac").is_empty());
}

#[test]
fn extract_name_takes_first_identifier() {
    let src = "f(x) := x$";
    let tree = definition_tree(src);
    let lhs = &tree.children[0].children[0];
    assert_eq!(extract_name(Some(lhs), src), Some("f".to_string()));
    assert_eq!(extract_name(None, src), None);
}

#[test]
fn identifier_and_deepest_node_at_a_byte() {
    let src = "f(x) := x$";
    let tree = definition_tree(src);
    assert_eq!(deepest_node_at(&tree, 2).unwrap().kind, "identifier");
    assert_eq!(identifier_at_position(&tree, 2, src), Some("x".to_string()));
    assert_eq!(identifier_at_position(&tree, 5, src), None);
}

#[test]
fn load_argument_of_string_identifier_and_atom() {
    let src = "\"draw\" colors";
    assert_eq!(extract_load_argument(&leaf("string", true, 0, 6), src), Some("draw".to_string()));
    let atom = node("atom", true, 7, 13, vec![leaf("identifier", true, 7, 13)]);
    assert_eq!(extract_load_argument(&atom, src), Some("colors".to_string()));
    assert_eq!(extract_load_argument(&leaf("number", true, 0, 6), src), None);
    let empty = "\"\"";
    assert_eq!(extract_load_argument(&leaf("string", true, 0, 2), empty), None);
}

#[test]
fn docstrings_attach_preceding_comment() {
    let src = "/* Increment by one.\n@param x - value */\ninc(x) := x + 1$\n\n/* no attachment */ y$\norphan(y) := y$\n";
    let c1_end = src.find("*/").unwrap() + 2;
    let d1_start = src.find("inc(x)").unwrap();
    let d1_end = d1_start + "inc(x) := x + 1".len();
    let c2_start = src.find("/* no").unwrap();
    let c2_end = c2_start + "/* no attachment */".len();
    let d2_start = src.find("orphan").unwrap();
    let d2_end = d2_start + "orphan(y) := y".len();
    let inc = node("binary_expression", true, d1_start, d1_end, vec![
        node("function_call", true, d1_start, d1_start + 6, vec![leaf("identifier", true, d1_start, d1_start + 3)]),
        leaf(":=", false, d1_start + 7, d1_start + 9),
        leaf("expression", true, d1_start + 10, d1_end),
    ]);
    let orphan = node("binary_expression", true, d2_start, d2_end, vec![
        node("function_call", true, d2_start, d2_start + 9, vec![leaf("identifier", true, d2_start, d2_start + 6)]),
        leaf(":=", false, d2_start + 10, d2_start + 12),
        leaf("identifier", true, d2_start + 13, d2_end),
    ]);
    let tree = node("source_file", true, 0, src.len(), vec![
        leaf("comment", true, 0, c1_end),
        inc,
        leaf("comment", true, c2_start, c2_end),
        orphan,
    ]);
    let docs = docstrings_from_tree(src, &tree);
    let inc = docs.get("inc").expect("inc");
    assert!(inc.doc.contains("Increment"));
    assert!(!inc.params.is_empty());
    assert_eq!(inc.signature, "inc(x)");
    let orphan = docs.get("orphan").expect("orphan");
    assert_eq!(orphan.doc, "orphan (user-defined)");
}

#[test]
fn invalid_utf8_has_no_text() {
    assert_eq!(text_between(&[0x61, 0xff], 0, 2), None);
    assert_eq!(text_between(&[0x61, 0x62], 0, 2), Some("ab".to_string()));
    assert_eq!(text_between(&[0x61], 1, 3), None);
}
