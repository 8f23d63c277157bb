//! Scenarios on small Maxima sources. The library reads Maxima through syntax
//! trees handed to it; the Maxima grammar itself is supplied by the server,
//! so these tests build the tree of each source with a small reader of their
//! own that produces the node kinds the library looks for (`function_call`,
//! `binary_expression` with its operator as second child, `identifier`,
//! `string`, `number`, `list`, `comment`).

use maxima_lsp::definitions::{collect_definitions, identifier_at_position};
use maxima_lsp::docstring::docstrings_from_tree;
use maxima_lsp::imports::{load_target_at_position, maxima_imports_in, ImportSpec};
use maxima_lsp::syntax::SyntaxNode;

/// Row and column (in bytes) of `byte` in `src`.
fn point(src: &str, byte: usize) -> (usize, usize) {
    let before = &src[..byte];
    let row = before.matches('\n').count();
    let col = match before.rfind('\n') {
        Some(nl) => byte - nl - 1,
        None => byte,
    };
    (row, col)
}

fn make(src: &str, kind: &str, named: bool, start: usize, end: usize, children: Vec<SyntaxNode>) -> SyntaxNode {
    let (start_row, start_column) = point(src, start);
    let (end_row, end_column) = point(src, end);
    SyntaxNode {
        kind: kind.to_string(),
        named,
        is_error: false,
        is_missing: false,
        start_byte: start,
        end_byte: end,
        start_row,
        start_column,
        end_row,
        end_column,
        children,
    }
}

/// A reader for the statements used below: calls, lists, strings, numbers,
/// identifiers, the binary operators `:= ::= : :: + - * / ^`, comments and
/// the terminators `;` and `$`.
struct Reader<'a> {
    src: &'a str,
    b: &'a [u8],
    i: usize,
}

/// The binary operators, longest first where one begins another, with
/// their binding levels.
fn operators() -> [(&'static str, u8); 9] {
    [("::=", 0), (":=", 0), ("::", 0), (":", 0), ("+", 1), ("-", 1), ("*", 2), ("/", 2), ("^", 3)]
}

impl<'a> Reader<'a> {
    fn new(src: &'a str) -> Self {
        Reader { src, b: src.as_bytes(), i: 0 }
    }

    fn leaf(&self, kind: &str, named: bool, start: usize, end: usize) -> SyntaxNode {
        make(self.src, kind, named, start, end, Vec::new())
    }

    fn skip_blanks(&mut self) {
        while self.i < self.b.len() && (self.b[self.i] as char).is_whitespace() {
            self.i += 1;
        }
    }

    /// Skips blanks and comments, handing each comment to `out`.
    fn skip_trivia(&mut self, out: &mut Vec<SyntaxNode>) {
        loop {
            self.skip_blanks();
            if self.src[self.i..].starts_with("/*") {
                let start = self.i;
                let end = start + self.src[start..].find("*/").unwrap() + 2;
                out.push(self.leaf("comment", true, start, end));
                self.i = end;
            } else {
                return;
            }
        }
    }

    fn expect(&mut self, tok: &str) -> SyntaxNode {
        let mut ignored = Vec::new();
        self.skip_trivia(&mut ignored);
        assert!(self.src[self.i..].starts_with(tok), "expected {tok:?} at {}", self.i);
        let start = self.i;
        self.i += tok.len();
        self.leaf(tok, false, start, self.i)
    }

    fn peek_operator(&mut self) -> Option<(&'static str, u8)> {
        let mut ignored = Vec::new();
        self.skip_trivia(&mut ignored);
        operators().into_iter().find(|(op, _)| self.src[self.i..].starts_with(op))
    }

    fn expression(&mut self, min_level: u8) -> SyntaxNode {
        let mut lhs = self.primary();
        while let Some((op, level)) = self.peek_operator() {
            if level < min_level {
                break;
            }
            let op_node = self.expect(op);
            // Assignments group to the right, the others to the left.
            let rhs = if level == 0 { self.expression(level) } else { self.expression(level + 1) };
            let (start, end) = (lhs.start_byte, rhs.end_byte);
            lhs = make(self.src, "binary_expression", true, start, end, vec![lhs, op_node, rhs]);
        }
        lhs
    }

    /// The items of a bracketed sequence up to `close`, separators included.
    fn items(&mut self, close: &str, children: &mut Vec<SyntaxNode>) {
        let mut ignored = Vec::new();
        self.skip_trivia(&mut ignored);
        if !self.src[self.i..].starts_with(close) {
            loop {
                children.push(self.expression(0));
                self.skip_trivia(&mut ignored);
                if self.src[self.i..].starts_with(',') {
                    children.push(self.expect(","));
                } else {
                    break;
                }
            }
        }
        children.push(self.expect(close));
    }

    fn primary(&mut self) -> SyntaxNode {
        let mut ignored = Vec::new();
        self.skip_trivia(&mut ignored);
        let start = self.i;
        let c = self.b[self.i] as char;
        if c == '"' {
            self.i += 1;
            while self.b[self.i] != b'"' {
                if self.b[self.i] == b'\\' {
                    self.i += 1;
                }
                self.i += 1;
            }
            self.i += 1;
            return self.leaf("string", true, start, self.i);
        }
        if c.is_ascii_digit() {
            while self.i < self.b.len() && ((self.b[self.i] as char).is_ascii_digit() || self.b[self.i] == b'.') {
                self.i += 1;
            }
            return self.leaf("number", true, start, self.i);
        }
        if c == '[' {
            let mut children = vec![self.expect("[")];
            self.items("]", &mut children);
            return make(self.src, "list", true, start, self.i, children);
        }
        if c == '(' {
            let open = self.expect("(");
            let inner = self.expression(0);
            let close = self.expect(")");
            return make(self.src, "parenthesized_expression", true, start, self.i, vec![open, inner, close]);
        }
        assert!(c.is_alphabetic() || c == '_' || c == '%', "unexpected {c:?} at {start}");
        while self.i < self.b.len() {
            let d = self.b[self.i] as char;
            if d.is_alphanumeric() || d == '_' || d == '%' {
                self.i += 1;
            } else {
                break;
            }
        }
        let name = self.leaf("identifier", true, start, self.i);
        if self.i < self.b.len() && self.b[self.i] == b'(' {
            let mut children = vec![name, self.expect("(")];
            self.items(")", &mut children);
            return make(self.src, "function_call", true, start, self.i, children);
        }
        name
    }

    fn source_file(mut self) -> SyntaxNode {
        let mut children = Vec::new();
        loop {
            self.skip_trivia(&mut children);
            if self.i >= self.b.len() {
                break;
            }
            children.push(self.expression(0));
            self.skip_trivia(&mut children);
            if self.i < self.b.len() && (self.b[self.i] == b';' || self.b[self.i] == b'$') {
                let t = if self.b[self.i] == b';' { ";" } else { "$" };
                children.push(self.expect(t));
            }
        }
        make(self.src, "source_file", true, 0, self.src.len(), children)
    }
}

fn parse_maxima(src: &str) -> SyntaxNode {
    Reader::new(src).source_file()
}

fn packages(specs: &[ImportSpec]) -> Vec<String> {
    specs.iter().map(|s| s.package.clone()).collect()
}

fn find_maxima_imports(src: &str) -> Vec<ImportSpec> {
    maxima_imports_in(&parse_maxima(src), src)
}

fn byte_on(src: &str, needle: &str) -> usize {
    src.find(needle).unwrap() + needle.len() / 2
}

#[test]
fn reader_builds_calls_and_definitions() {
    let src = "f(x) := x^2$";
    let tree = parse_maxima(src);
    assert_eq!(tree.children.len(), 2);
    let def = &tree.children[0];
    assert_eq!(def.kind, "binary_expression");
    assert_eq!(def.children[1].kind, ":=");
    assert_eq!(def.children[0].kind, "function_call");
    assert_eq!((def.start_byte, def.end_byte), (0, 11));
    assert_eq!(tree.children[1].kind, "$");
    let two_lines = parse_maxima("a: 1$\nb: 2$");
    assert_eq!((two_lines.children[2].start_row, two_lines.children[2].start_column), (1, 0));
}

#[test]
fn test_find_maxima_imports_load() {
    let src = r#"load("utils");"#;
    assert_eq!(packages(&find_maxima_imports(src)), vec!["utils"]);
}

#[test]
fn test_find_maxima_imports_identifier() {
    let src = r#"import(colors);"#;
    assert_eq!(packages(&find_maxima_imports(src)), vec!["colors"]);
}

#[test]
fn test_find_maxima_imports_import() {
    let src = r#"import("colors");"#;
    assert_eq!(packages(&find_maxima_imports(src)), vec!["colors"]);
}

#[test]
fn test_find_maxima_imports_versioned() {
    let src = r#"import(colors, ["1.0.0"]);"#;
    let specs = find_maxima_imports(src);
    assert_eq!(specs.len(), 1);
    assert_eq!(specs[0].package, "colors");
    assert_eq!(specs[0].version.as_deref(), Some("1.0.0"));
}

#[test]
fn test_find_maxima_imports_batch() {
    let src = r#"batch("setup");"#;
    assert_eq!(packages(&find_maxima_imports(src)), vec!["setup"]);
}

#[test]
fn test_find_maxima_imports_multiple() {
    let src = r#"
load("utils");
import("colors");
batch("setup");
"#;
    let calls = packages(&find_maxima_imports(src));
    assert_eq!(calls.len(), 3);
    assert!(calls.contains(&"utils".to_string()));
    assert!(calls.contains(&"colors".to_string()));
    assert!(calls.contains(&"setup".to_string()));
}

#[test]
fn test_find_maxima_imports_no_match() {
    let src = r#"f(x) := x^2$"#;
    assert!(find_maxima_imports(src).is_empty());
}

#[test]
fn test_collect_colon_assignment() {
    let src = "colorsEsc: sconcat(ascii(27))$\ncolorsRed(x) := x$";
    let tree = parse_maxima(src);
    let defs = collect_definitions(&tree, src, "file:///tmp/test.mac");
    assert!(defs.get("colorsEsc").is_some());
    assert!(defs.get("colorsRed").is_some());
    let red = defs.get("colorsRed").unwrap();
    assert_eq!((red.range.start.line, red.range.start.character), (1, 0));
}

#[test]
fn load_target_at_position_on_quoted_string() {
    let src = r#"load("draw")$"#;
    let tree = parse_maxima(src);
    let byte = byte_on(src, "draw");
    let got = load_target_at_position(&tree, byte, src);
    assert_eq!(got.as_ref().map(|(n, _)| n.as_str()), Some("draw"));
}

#[test]
fn load_target_at_position_on_absolute_path() {
    let src = r#"load("/tmp/helper.mac")$"#;
    let tree = parse_maxima(src);
    let byte = byte_on(src, "helper");
    let got = load_target_at_position(&tree, byte, src);
    assert_eq!(got.as_ref().map(|(n, _)| n.as_str()), Some("/tmp/helper.mac"));
}

#[test]
fn load_target_at_position_on_bare_identifier() {
    let src = r#"load(draw)$"#;
    let tree = parse_maxima(src);
    let byte = byte_on(src, "draw");
    let got = load_target_at_position(&tree, byte, src);
    assert_eq!(got.as_ref().map(|(n, _)| n.as_str()), Some("draw"));
}

#[test]
fn load_target_goto_on_quoted_and_bare_identifiers() {
    for (src, needle, expected) in [
        (r#"load("draw")$"#, "draw", "draw"),
        (r#"load(draw)$"#, "draw", "draw"),
        (r#"import(colors)$"#, "colors", "colors"),
        (r#"batch("setup")$"#, "setup", "setup"),
    ] {
        let tree = parse_maxima(src);
        let byte = byte_on(src, needle);
        let got = load_target_at_position(&tree, byte, src);
        assert_eq!(got.as_ref().map(|(n, _)| n.as_str()), Some(expected), "src={src:?}");
    }
}

#[test]
fn load_target_not_triggered_outside_import_call() {
    let src = r#"f(x) := x$ draw: 1$"#;
    let tree = parse_maxima(src);
    let byte = byte_on(src, "draw");
    assert!(load_target_at_position(&tree, byte, src).is_none());
}

#[test]
fn extract_docstrings_attaches_preceding_comment() {
    let src = r#"
/* Increment by one.
@param x - value
@return x + 1 */
inc(x) := x + 1$

/* no attachment */
orphan(y) := y$
"#;
    let docs = docstrings_from_tree(src, &parse_maxima(src));
    let inc = docs.get("inc").expect("inc");
    assert!(inc.doc.contains("Increment"));
    assert!(!inc.params.is_empty());
    assert!(docs.get("orphan").is_some());
}

#[test]
fn collect_definitions_covers_assignment_forms() {
    let src = r#"
a: 1$
b:: 2$
f(x) := x$
g(x) ::= x$
"#;
    let tree = parse_maxima(src);
    let defs = collect_definitions(&tree, src, "file:///tmp/defs.mac");
    for name in ["a", "b", "f", "g"] {
        assert!(defs.get(name).is_some(), "missing {name}");
    }
}

#[test]
fn identifier_at_position_finds_call_name() {
    let src = r#"foo(bar)$"#;
    let tree = parse_maxima(src);
    let byte = src.find("foo").unwrap() + 1;
    assert_eq!(identifier_at_position(&tree, byte, src).as_deref(), Some("foo"));
}
