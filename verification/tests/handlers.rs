use maxima_lsp::db::Database;
use maxima_lsp::handlers::{
    apply_change, capture_to_ttype, change_applies, completion, goto_identifier, goto_load_name, hover,
    legend, path_location, position_to_byte, symbols_from_matches, tokens, tokens_from_captures,
    CompletionKind, SymbolKind,
};
use maxima_lsp::imports::ImportWalk;
use maxima_lsp::lsp::{Position, Range};
use maxima_lsp::name_map::NameMap;
use maxima_lsp::paths::PathResolver;
use maxima_lsp::syntax::SyntaxNode;

fn node(kind: &str, named: bool, start: usize, end: usize, children: Vec<SyntaxNode>) -> SyntaxNode {
    SyntaxNode {
        kind: kind.to_string(),
        named,
        is_error: false,
        is_missing: false,
        start_byte: start,
        end_byte: end,
        start_row: 0,
        start_column: start,
        end_row: 0,
        end_column: end,
        children,
    }
}

fn leaf(kind: &str, named: bool, start: usize, end: usize) -> SyntaxNode {
    node(kind, named, start, end, Vec::new())
}

fn pos(line: u32, character: u32) -> Position {
    Position { line, character }
}

fn database() -> Database {
    let lang: tree_sitter::Language = tree_sitter_commonlisp::LANGUAGE_COMMONLISP.into();
    let paths = PathResolver::new(None, None, None, Vec::new(), NameMap::new());
    match Database::new(lang, paths, NameMap::new(), NameMap::new()) {
        Ok(db) => db,
        Err(e) => panic!("{}", e.message()),
    }
}

#[test]
fn position_counts_lines_and_bytes() {
    let s = "ab\nc\u{e9}d\n";
    assert_eq!(position_to_byte(s, pos(0, 1)), Some(1));
    assert_eq!(position_to_byte(s, pos(1, 0)), Some(3));
    assert_eq!(position_to_byte(s, pos(1, 3)), Some(6));
    assert_eq!(position_to_byte(s, pos(1, 100)), Some(s.len()));
    assert_eq!(position_to_byte(s, pos(2, 0)), None);
}

#[test]
fn hover_shows_builtin_documentation() {
    let db = database();
    let src = "diff(x)";
    let tree = node("source_file", true, 0, 7, vec![node("function_call", true, 0, 7, vec![leaf("identifier", true, 0, 4)])]);
    let h = hover(&db, pos(0, 1), "file:///tmp/h.mac", &tree, src).expect("hover");
    assert!(h.markdown.starts_with("**diff**  \u{b7}  calculus\n\n`"), "{}", h.markdown);
    assert_eq!((h.range.start.character, h.range.end.character), (0, 4));
}

#[test]
fn hover_on_unknown_name_is_a_variable() {
    let db = database();
    let src = "zork";
    let tree = node("source_file", true, 0, 4, vec![leaf("identifier", true, 0, 4)]);
    let h = hover(&db, pos(0, 0), "file:///tmp/h.mac", &tree, src).expect("hover");
    assert_eq!(h.markdown, "**zork**  \u{b7}  _variable_");
    assert!(hover(&db, pos(3, 0), "file:///tmp/h.mac", &tree, src).is_none());
}

#[test]
fn completion_offers_builtins_users_constants_and_keywords() {
    let mut db = database();
    let src = "myAdd(a, b) := a + b$";
    let call = node("function_call", true, 0, 11, vec![leaf("identifier", true, 0, 5)]);
    let def = node("binary_expression", true, 0, 20, vec![call, leaf(":=", false, 12, 14), leaf("expression", true, 15, 20)]);
    let tree = node("source_file", true, 0, 21, vec![def]);
    db.upsert_tree("file:///tmp/c.mac", src, 1, tree, &ImportWalk::start(Vec::new(), "/tmp", true));
    let items = completion(&db, "file:///tmp/c.mac").expect("items");
    let diff = items.iter().find(|i| i.label == "diff").unwrap();
    assert_eq!(diff.kind, CompletionKind::Function);
    assert!(diff.snippet);
    let user = items.iter().find(|i| i.label == "myAdd").unwrap();
    assert_eq!(user.detail.as_deref(), Some("user function"));
    assert_eq!(user.insert_text.as_deref(), Some("myAdd(${1:user-defined})"));
    let pi = items.iter().find(|i| i.label == "%pi").unwrap();
    assert_eq!(pi.kind, CompletionKind::Constant);
    assert!(items.iter().any(|i| i.label == "block" && i.kind == CompletionKind::Keyword));
}

#[test]
fn legend_and_capture_types() {
    let l = legend();
    assert_eq!(l.token_types.len(), 8);
    assert_eq!(l.token_types[7], "parameter");
    assert_eq!(l.token_modifiers, vec!["readonly".to_string()]);
    assert_eq!(capture_to_ttype("constant.builtin"), Some((2, 1)));
    assert_eq!(capture_to_ttype("variable.parameter"), Some((7, 0)));
    assert_eq!(capture_to_ttype("punctuation.delimiter"), Some((4, 0)));
    assert_eq!(capture_to_ttype("label"), None);
}

fn at(row: usize, col: usize, len: usize) -> SyntaxNode {
    SyntaxNode {
        kind: "identifier".to_string(),
        named: true,
        is_error: false,
        is_missing: false,
        start_byte: 100,
        end_byte: 100 + len,
        start_row: row,
        start_column: col,
        end_row: row,
        end_column: col + len,
        children: Vec::new(),
    }
}

#[test]
fn tokens_are_sorted_deduplicated_and_relative() {
    let matches = vec![
        vec![("function".to_string(), at(2, 4, 3)), ("comment".to_string(), at(0, 5, 2))],
        vec![("variable".to_string(), at(2, 4, 3)), ("label".to_string(), at(1, 0, 1)), ("number".to_string(), at(0, 1, 1))],
    ];
    let toks = tokens_from_captures(&matches);
    let rel: Vec<(u32, u32, u32, u32)> = toks.iter().map(|t| (t.delta_line, t.delta_start, t.length, t.token_type)).collect();
    assert_eq!(rel, vec![(0, 1, 1, 2), (0, 4, 2, 0), (2, 4, 3, 6)]);
    let mut line = 0;
    let mut start = 0;
    let mut absolute = Vec::new();
    for t in &toks {
        if t.delta_line == 0 {
            start += t.delta_start;
        } else {
            line += t.delta_line;
            start = t.delta_start;
        }
        absolute.push((line, start));
    }
    assert_eq!(absolute, vec![(0, 1), (0, 5), (2, 4)]);
}

#[test]
fn tokens_skip_error_nodes() {
    let mut bad = at(0, 0, 1);
    bad.is_error = true;
    assert!(tokens_from_captures(&vec![vec![("keyword".to_string(), bad)]]).is_empty());
}

#[test]
fn tokens_report_bad_query() {
    let lang: tree_sitter::Language = tree_sitter_commonlisp::LANGUAGE_COMMONLISP.into();
    match tokens(&lang, "(no_such_node) @x", "(a)") {
        Err(m) => assert!(m.starts_with("Failed to compile highlights query: "), "{m}"),
        Ok(_) => panic!("expected a query error"),
    }
    let ok = tokens(&lang, "(sym_lit) @variable", "(a b)").expect("tokens");
    assert_eq!(ok.len(), 2);
    assert_eq!((ok[1].delta_line, ok[1].delta_start, ok[1].token_type), (0, 2, 6));
}

#[test]
fn symbols_need_a_name() {
    let src = "f(x) := x$ y";
    let name = leaf("identifier", true, 0, 1);
    let matches = vec![
        vec![("definition.function".to_string(), node("binary_expression", true, 0, 9, Vec::new())), ("name".to_string(), name)],
        vec![("definition.variable".to_string(), node("binary_expression", true, 0, 9, Vec::new()))],
    ];
    let syms = symbols_from_matches(&matches, src);
    assert_eq!(syms.len(), 1);
    assert_eq!(syms[0].name, "f");
    assert_eq!(syms[0].kind, SymbolKind::Function);
    assert_eq!((syms[0].range.end.character, syms[0].selection_range.end.character), (9, 1));
}

#[test]
fn goto_names_under_cursor() {
    let src = "load(\"draw\")$ foo";
    let tree = node("source_file", true, 0, 17, vec![
        node("function_call", true, 0, 12, vec![leaf("identifier", true, 0, 4), leaf("string", true, 5, 11)]),
        leaf("identifier", true, 14, 17),
    ]);
    assert_eq!(goto_load_name(&tree, src, pos(0, 7)), Some("draw".to_string()));
    assert_eq!(goto_load_name(&tree, src, pos(0, 15)), None);
    assert_eq!(goto_identifier(&tree, src, pos(0, 15)), Some("foo".to_string()));
    assert_eq!(goto_identifier(&tree, src, pos(0, 7)), None);
}

#[test]
fn path_location_points_at_file_start() {
    let l = path_location("/tmp/a b.mac").expect("location");
    assert_eq!(l.uri, "file:///tmp/a%20b.mac");
    assert_eq!(l.range, Range { start: pos(0, 0), end: pos(0, 0) });
    assert!(path_location("rel.mac").is_none());
}

#[test]
fn edits_replace_ranges_or_the_whole_text() {
    let text = "abc\ndef\n";
    let r = Range { start: pos(1, 1), end: pos(1, 2) };
    assert!(change_applies(text, Some(r)));
    assert_eq!(apply_change(text, Some(r), "XY"), "abc\ndXYf\n");
    assert_eq!(apply_change(text, None, "new"), "new");
    let past = Range { start: pos(5, 0), end: pos(5, 1) };
    assert_eq!(apply_change(text, Some(past), "zz"), text);
    let backwards = Range { start: pos(1, 2), end: pos(1, 0) };
    assert!(!change_applies(text, Some(backwards)));
    let inside = "\u{e9}";
    let split = Range { start: pos(0, 1), end: pos(0, 1) };
    assert!(!change_applies(inside, Some(split)));
}
