//! Parsing with tree-sitter: the calls into the parser and the conversion
//! of its tree into plain syntax nodes.

use vstd::prelude::*;
use tree_sitter::StreamingIterator;
use crate::syntax::SyntaxNode;

verus! {

#[verifier::external_type_specification]
#[verifier::external_body]
pub struct ExParser(tree_sitter::Parser);

#[verifier::external_type_specification]
#[verifier::external_body]
pub struct ExTree(tree_sitter::Tree);

#[verifier::external_type_specification]
#[verifier::external_body]
pub struct ExLanguage(tree_sitter::Language);

#[verifier::external_type_specification]
#[verifier::external_body]
pub struct ExNode<'tree>(tree_sitter::Node<'tree>);

#[verifier::external_type_specification]
#[verifier::external_body]
pub struct ExQuery(tree_sitter::Query);

/// Whether `tree_sitter::Parser::set_language` accepts the grammar `lang`
/// (it does exactly when the grammar's ABI version lies in the range this
/// tree-sitter supports).
pub uninterp spec fn accepted(lang: tree_sitter::Language) -> bool;

/// The grammar a parser holds, as `tree_sitter::Parser::language` reports
/// it.
pub uninterp spec fn parser_grammar(p: tree_sitter::Parser) -> Option<tree_sitter::Language>;

/// The tree `tree_sitter::Parser::parse` builds of `text` with the grammar
/// `lang`. Parsing is deterministic, so trees built of the same text in the
/// same grammar are taken as one: the node accessors named here report the
/// same of them.
pub uninterp spec fn parsed(lang: tree_sitter::Language, text: Seq<char>) -> tree_sitter::Tree;

/// `tree_sitter::Tree::root_node` of a tree.
pub uninterp spec fn root_of(t: &tree_sitter::Tree) -> tree_sitter::Node<'_>;

/// `tree_sitter::Node::kind` of a node.
pub uninterp spec fn kind_of(n: tree_sitter::Node) -> Seq<char>;

/// `tree_sitter::Node::is_named` of a node.
pub uninterp spec fn named_of(n: tree_sitter::Node) -> bool;

/// `tree_sitter::Node::is_error` of a node.
pub uninterp spec fn error_of(n: tree_sitter::Node) -> bool;

/// `tree_sitter::Node::is_missing` of a node.
pub uninterp spec fn missing_of(n: tree_sitter::Node) -> bool;

/// `tree_sitter::Node::start_byte` of a node.
pub uninterp spec fn start_byte_of(n: tree_sitter::Node) -> usize;

/// `tree_sitter::Node::end_byte` of a node.
pub uninterp spec fn end_byte_of(n: tree_sitter::Node) -> usize;

/// `tree_sitter::Node::start_position` of a node, as row and column.
pub uninterp spec fn start_point_of(n: tree_sitter::Node) -> (usize, usize);

/// `tree_sitter::Node::end_position` of a node, as row and column.
pub uninterp spec fn end_point_of(n: tree_sitter::Node) -> (usize, usize);

/// `tree_sitter::Node::child_count` of a node.
pub uninterp spec fn child_count_of(n: tree_sitter::Node) -> usize;

/// `tree_sitter::Node::child` of a node at an index below its child count.
pub uninterp spec fn child_of(n: tree_sitter::Node, i: int) -> tree_sitter::Node;

/// `tree_sitter::Node::descendant_count` of a node.
pub uninterp spec fn descendant_count_of(n: tree_sitter::Node) -> usize;

/// Whether a grammar is the Common Lisp grammar of
/// `tree_sitter_commonlisp`.
pub uninterp spec fn is_commonlisp(lang: tree_sitter::Language) -> bool;

/// `tree_sitter::Query::new` of a query text in a grammar: the query, or
/// the text of the error it reports.
pub uninterp spec fn query_in(lang: tree_sitter::Language, source: Seq<char>) -> Result<
    tree_sitter::Query,
    Seq<char>,
>;

/// `tree_sitter::QueryCursor::matches` of a query over a whole tree of the
/// text `source`: the matches in the order the cursor gives them, each as
/// its captures, a capture as the name the query gives it and its node.
pub uninterp spec fn matches_in(
    q: tree_sitter::Query,
    t: &tree_sitter::Tree,
    source: Seq<char>,
) -> Seq<Seq<(Seq<char>, tree_sitter::Node<'_>)>>;

/// `tree_sitter::Parser::new`: a parser with no language set.
#[verifier::external_body]
fn new_parser() -> (r: tree_sitter::Parser)
    ensures
        parser_grammar(r) is None,
{
    tree_sitter::Parser::new()
}

/// `tree_sitter::Parser::set_language`: whether the parser accepted the
/// language; when it does, the parser holds it, and when it refuses it,
/// the parser is left as it was.
#[verifier::external_body]
fn set_parser_language(parser: &mut tree_sitter::Parser, lang: &tree_sitter::Language) -> (r: bool)
    ensures
        r == accepted(*lang),
        r ==> parser_grammar(*final(parser)) == Some(*lang),
        !r ==> parser_grammar(*final(parser)) == parser_grammar(*old(parser)),
{
    parser.set_language(lang).is_ok()
}

/// `tree_sitter::Parser::parse` of a whole text, with no earlier tree. With
/// no timeout and no cancellation flag set, as here, it gives a tree
/// exactly when the parser holds a grammar.
#[verifier::external_body]
fn parse_text(parser: &mut tree_sitter::Parser, text: &str) -> (r: Option<tree_sitter::Tree>)
    ensures
        parser_grammar(*final(parser)) == parser_grammar(*old(parser)),
        match parser_grammar(*old(parser)) {
            Some(l) => r == Some(parsed(l, text@)),
            None => r is None,
        },
{
    parser.parse(text, None)
}

/// `tree_sitter::Tree::root_node`.
#[verifier::external_body]
fn root_node<'a>(tree: &'a tree_sitter::Tree) -> (r: tree_sitter::Node<'a>)
    ensures
        r == root_of(tree),
{
    tree.root_node()
}

/// `tree_sitter::Node::kind`: the grammar's name for the node's type.
#[verifier::external_body]
fn node_kind(node: &tree_sitter::Node) -> (r: String)
    ensures
        r@ == kind_of(*node),
{
    node.kind().to_string()
}

/// `tree_sitter::Node::is_named`.
#[verifier::external_body]
fn node_is_named(node: &tree_sitter::Node) -> (r: bool)
    ensures
        r == named_of(*node),
{
    node.is_named()
}

/// `tree_sitter::Node::is_error`.
#[verifier::external_body]
fn node_is_error(node: &tree_sitter::Node) -> (r: bool)
    ensures
        r == error_of(*node),
{
    node.is_error()
}

/// `tree_sitter::Node::is_missing`.
#[verifier::external_body]
fn node_is_missing(node: &tree_sitter::Node) -> (r: bool)
    ensures
        r == missing_of(*node),
{
    node.is_missing()
}

/// `tree_sitter::Node::start_byte`.
#[verifier::external_body]
fn node_start_byte(node: &tree_sitter::Node) -> (r: usize)
    ensures
        r == start_byte_of(*node),
{
    node.start_byte()
}

/// `tree_sitter::Node::end_byte`.
#[verifier::external_body]
fn node_end_byte(node: &tree_sitter::Node) -> (r: usize)
    ensures
        r == end_byte_of(*node),
{
    node.end_byte()
}

/// `tree_sitter::Node::start_position`, as row and column.
#[verifier::external_body]
fn node_start_position(node: &tree_sitter::Node) -> (r: (usize, usize))
    ensures
        r == start_point_of(*node),
{
    let p = node.start_position();
    (p.row, p.column)
}

/// `tree_sitter::Node::end_position`, as row and column.
#[verifier::external_body]
fn node_end_position(node: &tree_sitter::Node) -> (r: (usize, usize))
    ensures
        r == end_point_of(*node),
{
    let p = node.end_position();
    (p.row, p.column)
}

/// `tree_sitter::Node::child_count`.
#[verifier::external_body]
fn node_child_count(node: &tree_sitter::Node) -> (r: usize)
    ensures
        r == child_count_of(*node),
{
    node.child_count()
}

/// `tree_sitter::Node::child`: the child at index `i`, which there is for
/// each index below the child count.
#[verifier::external_body]
fn node_child<'a>(node: &tree_sitter::Node<'a>, i: usize) -> (r: Option<tree_sitter::Node<'a>>)
    ensures
        i < child_count_of(*node) ==> r == Some(child_of(*node, i as int)),
{
    node.child(i)
}

/// `tree_sitter::Node::descendant_count`: the number of nodes of the tree
/// rooted at the node, the node itself included, so at least one.
#[verifier::external_body]
fn node_descendant_count(node: &tree_sitter::Node) -> (n: usize)
    ensures
        n == descendant_count_of(*node),
        n >= 1,
{
    node.descendant_count()
}

/// The Common Lisp grammar (`tree_sitter_commonlisp::LANGUAGE_COMMONLISP`).
/// Every call gives the same grammar, generated for ABI version 14, which
/// this tree-sitter accepts.
#[verifier::external_body]
pub(crate) fn commonlisp_language() -> (r: tree_sitter::Language)
    ensures
        is_commonlisp(r),
        accepted(r),
        forall|l: tree_sitter::Language| is_commonlisp(l) ==> l == r,
{
    tree_sitter_commonlisp::LANGUAGE_COMMONLISP.into()
}

/// Whether the plain node `r` holds what tree-sitter reports of node `n`,
/// with its children down to `depth` levels below it.
pub open spec fn mirrors(r: SyntaxNode, n: tree_sitter::Node, depth: nat) -> bool
    decreases depth,
{
    &&& r.kind@ == kind_of(n)
    &&& r.named == named_of(n)
    &&& r.is_error == error_of(n)
    &&& r.is_missing == missing_of(n)
    &&& r.start_byte == start_byte_of(n)
    &&& r.end_byte == end_byte_of(n)
    &&& (r.start_row, r.start_column) == start_point_of(n)
    &&& (r.end_row, r.end_column) == end_point_of(n)
    &&& if depth == 0 {
        r.children@.len() == 0
    } else {
        &&& r.children@.len() == child_count_of(n)
        &&& forall|i: int|
            0 <= i < r.children@.len() ==> mirrors(
                #[trigger] r.children@[i],
                child_of(n, i),
                (depth - 1) as nat,
            )
    }
}

/// Whether `t` is the syntax tree of `source` in the grammar `lang`: the
/// grammar is accepted and `t` holds the whole tree tree-sitter builds.
pub open spec fn parse_of(t: SyntaxNode, lang: tree_sitter::Language, source: Seq<char>) -> bool {
    let root = root_of(&parsed(lang, source));
    accepted(lang) && mirrors(t, root, descendant_count_of(root) as nat)
}

/// The tree rooted at `node`, as plain syntax nodes, down to `depth` levels
/// below it.
fn build_node(node: &tree_sitter::Node, depth: usize) -> (r: SyntaxNode)
    ensures
        mirrors(r, *node, depth as nat),
    decreases depth,
{
    let (start_row, start_column) = node_start_position(node);
    let (end_row, end_column) = node_end_position(node);
    let mut children: Vec<SyntaxNode> = Vec::new();
    if depth > 0 {
        let count = node_child_count(node);
        let mut i: usize = 0;
        while i < count
            invariant
                i <= count,
                count == child_count_of(*node),
                depth > 0,
                children@.len() == i,
                forall|k: int|
                    0 <= k < children@.len() ==> mirrors(
                        #[trigger] children@[k],
                        child_of(*node, k),
                        (depth - 1) as nat,
                    ),
            decreases count - i,
        {
            let child = node_child(node, i);
            match child {
                Some(c) => {
                    assert(Some(child_of(*node, i as int)) == Some(c));
                    let b = build_node(&c, depth - 1);
                    let ghost before = children@;
                    children.push(b);
                    assert forall|k: int| 0 <= k < children@.len() implies mirrors(#[trigger] children@[k], child_of(*node, k), (depth - 1) as nat) by {
                        if k < i {
                            assert(children@[k] == before[k]);
                        } else {
                        }
                    }
                },
                None => {
                    assert(false);
                },
            }
            i = i + 1;
        }
    }
    let r = SyntaxNode {
        kind: node_kind(node),
        named: node_is_named(node),
        is_error: node_is_error(node),
        is_missing: node_is_missing(node),
        start_byte: node_start_byte(node),
        end_byte: node_end_byte(node),
        start_row,
        start_column,
        end_row,
        end_column,
        children,
    };
    assert(depth > 0 ==> r.children@.len() == child_count_of(*node));
    assert(depth > 0 ==> forall|k: int|
        0 <= k < r.children@.len() ==> mirrors(
            #[trigger] r.children@[k],
            child_of(*node, k),
            (depth - 1) as nat,
        ));
    r
}

/// Whether a parser accepts the grammar `lang`.
pub fn language_accepted(lang: &tree_sitter::Language) -> (r: bool)
    ensures
        r == accepted(*lang),
{
    let mut parser = new_parser();
    set_parser_language(&mut parser, lang)
}

/// The tree of `source` in the grammar `lang`; `None` when the parser
/// refuses the grammar.
pub(crate) fn parse_tree(lang: &tree_sitter::Language, source: &str) -> (r: Option<tree_sitter::Tree>)
    ensures
        r == (if accepted(*lang) {
            Some(parsed(*lang, source@))
        } else {
            None
        }),
{
    let mut parser = new_parser();
    if !set_parser_language(&mut parser, lang) {
        return None;
    }
    parse_text(&mut parser, source)
}

/// The syntax tree of `source` in the grammar `lang`; `None` when the parser
/// refuses the grammar.
pub fn parse_with(lang: &tree_sitter::Language, source: &str) -> (r: Option<SyntaxNode>)
    ensures
        r is Some <==> accepted(*lang),
        r matches Some(t) ==> parse_of(t, *lang, source@),
{
    let tree = match parse_tree(lang, source) {
        Some(t) => t,
        None => {
            return None;
        },
    };
    let root = root_node(&tree);
    let depth = node_descendant_count(&root);
    Some(build_node(&root, depth))
}

/// `tree_sitter::Query::new`: the query compiled for the grammar, or the
/// text of the error it reports.
#[verifier::external_body]
pub(crate) fn new_query(lang: &tree_sitter::Language, source: &str) -> (r: Result<tree_sitter::Query, String>)
    ensures
        match r {
            Ok(q) => query_in(*lang, source@) == Ok::<tree_sitter::Query, Seq<char>>(q),
            Err(e) => query_in(*lang, source@) == Err::<tree_sitter::Query, Seq<char>>(e@),
        },
{
    match tree_sitter::Query::new(lang, source) {
        Ok(q) => Ok(q),
        Err(e) => Err(e.to_string()),
    }
}

/// `tree_sitter::QueryCursor::matches` over the whole tree: the matches in
/// the order the cursor gives them, each as its captures, a capture as the
/// name the query gives it and the node it captured.
#[verifier::external_body]
fn query_matches<'t>(query: &tree_sitter::Query, tree: &'t tree_sitter::Tree, source: &str) -> (r: Vec<
    Vec<(String, tree_sitter::Node<'t>)>,
>)
    ensures
        r@.len() == matches_in(*query, tree, source@).len(),
        forall|i: int|
            0 <= i < r@.len() ==> (#[trigger] r@[i])@.len() == matches_in(*query, tree, source@)[i].len(),
        forall|i: int, j: int|
            0 <= i < r@.len() && 0 <= j < r@[i]@.len() ==> (#[trigger] r@[i]@[j]).0@ == matches_in(
                *query,
                tree,
                source@,
            )[i][j].0 && r@[i]@[j].1 == matches_in(*query, tree, source@)[i][j].1,
{
    let names = query.capture_names();
    let mut cursor = tree_sitter::QueryCursor::new();
    let mut it = cursor.matches(query, tree.root_node(), source.as_bytes());
    let mut out = Vec::new();
    while let Some(m) = it.next() {
        out.push(m.captures.iter().map(|c| (names[c.index as usize].to_string(), c.node)).collect());
    }
    out
}

/// Whether `caps` holds the matches `ms`, each capture with its name and
/// its node as a plain node without children.
pub open spec fn captures_mirror(
    caps: Seq<Vec<(String, SyntaxNode)>>,
    ms: Seq<Seq<(Seq<char>, tree_sitter::Node)>>,
) -> bool {
    &&& caps.len() == ms.len()
    &&& forall|i: int| 0 <= i < caps.len() ==> (#[trigger] caps[i])@.len() == ms[i].len()
    &&& forall|i: int, j: int|
        0 <= i < caps.len() && 0 <= j < caps[i]@.len() ==> (#[trigger] caps[i]@[j]).0@ == ms[i][j].0
            && mirrors(caps[i]@[j].1, ms[i][j].1, 0)
}

/// Whether `caps` holds the captures of the query `q` over the tree of
/// `source` in the grammar `lang`, none when the grammar is refused.
pub open spec fn captures_of(
    caps: Seq<Vec<(String, SyntaxNode)>>,
    lang: tree_sitter::Language,
    q: tree_sitter::Query,
    source: Seq<char>,
) -> bool {
    if accepted(lang) {
        captures_mirror(caps, matches_in(q, &parsed(lang, source), source))
    } else {
        caps.len() == 0
    }
}

/// The matches of `query` over the tree of `source` in the grammar `lang`,
/// each capture with its node as a plain node without children; none when
/// the parser refuses the grammar.
pub fn query_captures(lang: &tree_sitter::Language, query: &tree_sitter::Query, source: &str) -> (r:
    Vec<Vec<(String, SyntaxNode)>>)
    ensures
        captures_of(r@, *lang, *query, source@),
{
    let tree = match parse_tree(lang, source) {
        Some(t) => t,
        None => {
            return Vec::new();
        },
    };
    let matches = query_matches(query, &tree, source);
    let ghost ms = matches_in(*query, &tree, source@);
    let mut out: Vec<Vec<(String, SyntaxNode)>> = Vec::new();
    let mut i: usize = 0;
    while i < matches.len()
        invariant
            i <= matches@.len(),
            matches@.len() == ms.len(),
            forall|a: int| 0 <= a < matches@.len() ==> (#[trigger] matches@[a])@.len() == ms[a].len(),
            forall|a: int, b: int|
                0 <= a < matches@.len() && 0 <= b < matches@[a]@.len() ==> (#[trigger] matches@[a]@[b]).0@
                    == ms[a][b].0 && matches@[a]@[b].1 == ms[a][b].1,
            out@.len() == i,
            forall|a: int| 0 <= a < out@.len() ==> (#[trigger] out@[a])@.len() == ms[a].len(),
            forall|a: int, b: int|
                0 <= a < out@.len() && 0 <= b < out@[a]@.len() ==> (#[trigger] out@[a]@[b]).0@
                    == ms[a][b].0 && mirrors(out@[a]@[b].1, ms[a][b].1, 0),
        decreases matches@.len() - i,
    {
        let mut caps: Vec<(String, SyntaxNode)> = Vec::new();
        let mut j: usize = 0;
        while j < matches[i].len()
            invariant
                i < matches@.len(),
                j <= matches@[i as int]@.len(),
                matches@[i as int]@.len() == ms[i as int].len(),
                forall|b: int|
                    0 <= b < matches@[i as int]@.len() ==> (#[trigger] matches@[i as int]@[b]).0@
                        == ms[i as int][b].0 && matches@[i as int]@[b].1 == ms[i as int][b].1,
                caps@.len() == j,
                forall|b: int|
                    0 <= b < caps@.len() ==> (#[trigger] caps@[b]).0@ == ms[i as int][b].0 && mirrors(
                        caps@[b].1,
                        ms[i as int][b].1,
                        0,
                    ),
            decreases matches@[i as int]@.len() - j,
        {
            let (name, node) = &matches[i][j];
            let leaf = build_node(node, 0);
            caps.push((name.clone(), leaf));
            j = j + 1;
        }
        out.push(caps);
        i = i + 1;
    }
    out
}

/// Whether `t` is the syntax tree of Common Lisp `source`.
pub open spec fn lisp_parse_of(t: SyntaxNode, source: Seq<char>) -> bool {
    exists|l: tree_sitter::Language| is_commonlisp(l) && parse_of(t, l, source)
}

/// The syntax tree of Common Lisp `source`.
pub fn parse_commonlisp(source: &str) -> (r: Option<SyntaxNode>)
    ensures
        r matches Some(t) && lisp_parse_of(t, source@),
{
    let lang = commonlisp_language();
    parse_with(&lang, source)
}

} // verus!
