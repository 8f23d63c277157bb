//! Definitions in Maxima sources (`f(x) := ...`, `a : ...` and their
//! `::=`/`::` forms), and the identifiers and `load` arguments found at a
//! position of a syntax tree.

use vstd::prelude::*;
use vstd::string::StringSliceAdditionalSpecFns;
use crate::lsp::{location_views, Location, LocationView, Position, Range};
use crate::name_map::NameMap;
use crate::parse::{accepted, parse_of, parse_with};
use vstd::utf8::encode_utf8;
use crate::syntax::{
    child, child_at, derefs, kind_is, node_text, node_text_of, tour, tour_nodes, SyntaxNode,
};
use crate::text::{chars_of, str_equals, string_of, trim_char, trim_matches};

verus! {

/// The first node of kind `identifier` in the tree rooted at `n`, in
/// pre-order.
pub open spec fn first_identifier(n: SyntaxNode) -> Option<SyntaxNode>
    decreases n,
{
    if n.kind@ == "identifier"@ {
        Some(n)
    } else {
        first_identifier_list(n.children@)
    }
}

/// The first identifier in the trees `cs`, in pre-order.
pub open spec fn first_identifier_list(cs: Seq<SyntaxNode>) -> Option<SyntaxNode>
    decreases cs,
{
    if cs.len() == 0 {
        None
    } else {
        match first_identifier(cs[0]) {
            Some(x) => Some(x),
            None => first_identifier_list(cs.subrange(1, cs.len() as int)),
        }
    }
}

/// The name a definition's left-hand side defines: the text of its first
/// identifier.
pub open spec fn name_of(src: Seq<u8>, n: Option<SyntaxNode>) -> Option<Seq<char>> {
    match n {
        Some(n) => match first_identifier(n) {
            Some(id) => node_text_of(src, id),
            None => None,
        },
        None => None,
    }
}

/// The first identifier in the tree rooted at `n`.
pub fn find_identifier<'a>(n: &'a SyntaxNode) -> (r: Option<&'a SyntaxNode>)
    ensures
        r matches Some(x) ==> first_identifier(*n) == Some(*x),
        r is None ==> first_identifier(*n) is None,
    decreases n,
{
    if kind_is(n, "identifier") {
        return Some(n);
    }
    assert(n.children@.subrange(0, n.children@.len() as int) =~= n.children@);
    let mut i: usize = 0;
    while i < n.children.len()
        invariant
            i <= n.children@.len(),
            n.kind@ != "identifier"@,
            first_identifier(*n) == first_identifier_list(n.children@.subrange(i as int, n.children@.len() as int)),
        decreases n.children@.len() - i,
    {
        let ghost rest = n.children@.subrange(i as int, n.children@.len() as int);
        assert(rest[0] == n.children@[i as int]);
        assert(rest.subrange(1, rest.len() as int) =~= n.children@.subrange(i + 1, n.children@.len() as int));
        match find_identifier(&n.children[i]) {
            Some(x) => {
                return Some(x);
            },
            None => {},
        }
        i = i + 1;
    }
    assert(n.children@.subrange(i as int, n.children@.len() as int) =~= Seq::<SyntaxNode>::empty());
    None
}

/// The name that the tree rooted at `node` defines: the text of its first
/// identifier, in pre-order.
pub fn extract_name(node: Option<&SyntaxNode>, source: &str) -> (r: Option<String>)
    ensures
        r matches Some(s) ==> name_of(source.spec_bytes(), match node {
            Some(n) => Some(*n),
            None => None,
        }) == Some(s@),
        r is None ==> name_of(source.spec_bytes(), match node {
            Some(n) => Some(*n),
            None => None,
        }) is None,
{
    let n = match node {
        Some(n) => n,
        None => {
            return None;
        },
    };
    match find_identifier(n) {
        Some(id) => node_text(source.as_bytes(), id),
        None => None,
    }
}

/// The index, among `cs`, of the `i`-th node that is named.
pub open spec fn named_index(cs: Seq<SyntaxNode>, i: int) -> Option<int>
    decreases cs.len(),
{
    if cs.len() == 0 || i < 0 {
        None
    } else if cs[0].named && i == 0 {
        Some(0)
    } else {
        let j = if cs[0].named {
            i - 1
        } else {
            i
        };
        shifted(named_index(cs.subrange(1, cs.len() as int), j), 1)
    }
}

/// An optional index moved by `d`.
pub open spec fn shifted(o: Option<int>, d: int) -> Option<int> {
    match o {
        Some(k) => Some(k + d),
        None => None,
    }
}

/// The `i`-th named child of a node.
pub open spec fn named_child_of(n: SyntaxNode, i: int) -> Option<SyntaxNode> {
    match named_index(n.children@, i) {
        Some(k) => Some(n.children@[k]),
        None => None,
    }
}

pub proof fn lemma_named_index_bounds(cs: Seq<SyntaxNode>, i: int)
    ensures
        named_index(cs, i) matches Some(k) ==> 0 <= k < cs.len() && cs[k].named,
    decreases cs.len(),
{
    if cs.len() > 0 && i >= 0 && !(cs[0].named && i == 0) {
        let t = cs.subrange(1, cs.len() as int);
        let j = if cs[0].named {
            i - 1
        } else {
            i
        };
        lemma_named_index_bounds(t, j);
        if let Some(k) = named_index(t, j) {
            assert(t[k] == cs[k + 1]);
        }
    }
}

/// The position among the children of `n` of its `i`-th named child.
pub fn named_position(n: &SyntaxNode, i: usize) -> (r: Option<usize>)
    ensures
        r matches Some(k) ==> named_index(n.children@, i as int) == Some(k as int) && k
            < n.children@.len(),
        r is None ==> named_index(n.children@, i as int) is None,
{
    let mut k: usize = 0;
    let mut left: usize = i;
    assert(n.children@.subrange(0, n.children@.len() as int) =~= n.children@);
    while k < n.children.len()
        invariant
            k <= n.children@.len(),
            named_index(n.children@, i as int) == shifted(
                named_index(n.children@.subrange(k as int, n.children@.len() as int), left as int),
                k as int,
            ),
        decreases n.children@.len() - k,
    {
        let ghost rest = n.children@.subrange(k as int, n.children@.len() as int);
        assert(rest[0] == n.children@[k as int]);
        assert(rest.subrange(1, rest.len() as int) =~= n.children@.subrange(
            k + 1,
            n.children@.len() as int,
        ));
        if n.children[k].named {
            if left == 0 {
                return Some(k);
            }
            left = left - 1;
        }
        k = k + 1;
    }
    assert(n.children@.subrange(k as int, n.children@.len() as int) =~= Seq::<SyntaxNode>::empty());
    None
}

/// The `i`-th named child of `n`.
pub fn named_child(n: &SyntaxNode, i: usize) -> (r: Option<&SyntaxNode>)
    ensures
        r matches Some(c) ==> named_child_of(*n, i as int) == Some(*c),
        r is None ==> named_child_of(*n, i as int) is None,
{
    match named_position(n, i) {
        Some(k) => Some(&n.children[k]),
        None => None,
    }
}

/// The number of named children of a node.
pub open spec fn named_count(cs: Seq<SyntaxNode>) -> nat
    decreases cs.len(),
{
    if cs.len() == 0 {
        0
    } else {
        named_count(cs.subrange(1, cs.len() as int)) + if cs[0].named {
            1nat
        } else {
            0nat
        }
    }
}

/// The number of named children of `n`.
pub fn named_child_count(n: &SyntaxNode) -> (c: usize)
    ensures
        c == named_count(n.children@),
{
    let len: usize = n.children.len();
    let mut k: usize = len;
    let mut c: usize = 0;
    assert(n.children@.subrange(0, len as int) =~= n.children@);
    while k > 0
        invariant
            len == n.children@.len(),
            k <= n.children@.len(),
            c + named_count(n.children@.subrange(0, k as int)) == named_count(n.children@),
            c <= len - k,
        decreases k,
    {
        proof {
            lemma_named_count_split(n.children@.subrange(0, k as int), k - 1);
        }
        assert(n.children@.subrange(0, k as int).subrange(0, k - 1) =~= n.children@.subrange(0, k - 1));
        if n.children[k - 1].named {
            c = c + 1;
        }
        k = k - 1;
    }
    assert(n.children@.subrange(0, 0) =~= Seq::<SyntaxNode>::empty());
    assert(n.children@.subrange(0, n.children@.len() as int) =~= n.children@);
    c
}

pub proof fn lemma_named_count_split(cs: Seq<SyntaxNode>, k: int)
    requires
        0 <= k < cs.len(),
        k == cs.len() - 1,
    ensures
        named_count(cs) == named_count(cs.subrange(0, k)) + if cs[k].named {
            1nat
        } else {
            0nat
        },
    decreases cs.len(),
{
    if k > 0 {
        let t = cs.subrange(1, cs.len() as int);
        lemma_named_count_split(t, k - 1);
        assert(t.subrange(0, k - 1) =~= cs.subrange(0, k).subrange(1, k));
        assert(t[k - 1] == cs[k]);
    } else {
        assert(cs.subrange(1, cs.len() as int) =~= Seq::<SyntaxNode>::empty());
        assert(cs.subrange(0, 0) =~= Seq::<SyntaxNode>::empty());
    }
}

/// The node that a walk from `n` down to the first child whose byte range
/// holds `byte`, again and again, ends on.
pub open spec fn deepest_at(n: SyntaxNode, byte: int) -> SyntaxNode
    decreases n,
{
    deepest_among(n, n.children@, byte)
}

/// The end of the walk from `n` when the children left to try are `cs`.
pub open spec fn deepest_among(n: SyntaxNode, cs: Seq<SyntaxNode>, byte: int) -> SyntaxNode
    decreases cs,
{
    if cs.len() == 0 {
        n
    } else if cs[0].start_byte <= byte < cs[0].end_byte {
        deepest_at(cs[0], byte)
    } else {
        deepest_among(n, cs.subrange(1, cs.len() as int), byte)
    }
}

/// The deepest node at byte `byte` of the tree rooted at `root`: the walk
/// goes down into the first child whose range holds the byte as long as
/// there is one.
pub fn deepest_node_at<'a>(root: &'a SyntaxNode, byte: usize) -> (r: Option<&'a SyntaxNode>)
    ensures
        r matches Some(x) && *x == deepest_at(*root, byte as int),
    decreases root,
{
    let mut i: usize = 0;
    assert(root.children@.subrange(0, root.children@.len() as int) =~= root.children@);
    while i < root.children.len()
        invariant
            i <= root.children@.len(),
            deepest_at(*root, byte as int) == deepest_among(
                *root,
                root.children@.subrange(i as int, root.children@.len() as int),
                byte as int,
            ),
        decreases root.children@.len() - i,
    {
        let ghost rest = root.children@.subrange(i as int, root.children@.len() as int);
        assert(rest[0] == root.children@[i as int]);
        assert(rest.subrange(1, rest.len() as int) =~= root.children@.subrange(
            i + 1,
            root.children@.len() as int,
        ));
        let c = &root.children[i];
        if c.start_byte <= byte && byte < c.end_byte {
            return deepest_node_at(c, byte);
        }
        i = i + 1;
    }
    Some(root)
}

/// The nodes a walk from `n` down to the deepest node at `byte` passes, `n`
/// first.
pub open spec fn descent(n: SyntaxNode, byte: int) -> Seq<SyntaxNode>
    decreases n,
{
    seq![n] + descent_among(n.children@, byte)
}

/// The rest of the walk when the children left to try are `cs`.
pub open spec fn descent_among(cs: Seq<SyntaxNode>, byte: int) -> Seq<SyntaxNode>
    decreases cs,
{
    if cs.len() == 0 {
        Seq::empty()
    } else if cs[0].start_byte <= byte < cs[0].end_byte {
        descent(cs[0], byte)
    } else {
        descent_among(cs.subrange(1, cs.len() as int), byte)
    }
}

/// Appends the nodes a walk from `n` down to the deepest node at `byte`
/// passes.
pub fn descent_into<'a>(n: &'a SyntaxNode, byte: usize, out: &mut Vec<&'a SyntaxNode>)
    ensures
        derefs(final(out)@) == derefs(old(out)@) + descent(*n, byte as int),
    decreases n,
{
    let ghost start = derefs(out@);
    out.push(n);
    assert(derefs(out@) =~= start + seq![*n]);
    let mut i: usize = 0;
    assert(n.children@.subrange(0, n.children@.len() as int) =~= n.children@);
    while i < n.children.len()
        invariant
            i <= n.children@.len(),
            start == derefs(old(out)@),
            derefs(out@) == start + seq![*n],
            descent(*n, byte as int) == seq![*n] + descent_among(
                n.children@.subrange(i as int, n.children@.len() as int),
                byte as int,
            ),
        decreases n.children@.len() - i,
    {
        let ghost rest = n.children@.subrange(i as int, n.children@.len() as int);
        assert(rest[0] == n.children@[i as int]);
        assert(rest.subrange(1, rest.len() as int) =~= n.children@.subrange(
            i + 1,
            n.children@.len() as int,
        ));
        let c = &n.children[i];
        if c.start_byte <= byte && byte < c.end_byte {
            assert(descent_among(rest, byte as int) == descent(*c, byte as int));
            let ghost mid = derefs(out@);
            descent_into(c, byte, out);
            assert(derefs(out@) == mid + descent(*c, byte as int));
            assert(derefs(out@) =~= start + (seq![*n] + descent(*c, byte as int)));
            return;
        }
        i = i + 1;
    }
    assert(derefs(out@) =~= start + descent(*n, byte as int));
}

/// The nodes a walk from `root` down to the deepest node at `byte` passes.
pub fn descent_path<'a>(root: &'a SyntaxNode, byte: usize) -> (r: Vec<&'a SyntaxNode>)
    ensures
        derefs(r@) == descent(*root, byte as int),
{
    let mut out: Vec<&'a SyntaxNode> = Vec::new();
    descent_into(root, byte, &mut out);
    assert(derefs(out@) =~= descent(*root, byte as int));
    out
}

/// The identifier at byte `byte`: the text of the deepest node there when it
/// is an identifier, or of the identifier an atom there holds first.
pub open spec fn identifier_at(src: Seq<u8>, root: SyntaxNode, byte: int) -> Option<Seq<char>> {
    let n = deepest_at(root, byte);
    if n.kind@ == "identifier"@ {
        node_text_of(src, n)
    } else if n.kind@ == "atom"@ {
        match named_child_of(n, 0) {
            Some(c) => if c.kind@ == "identifier"@ {
                node_text_of(src, c)
            } else {
                None
            },
            None => None,
        }
    } else {
        None
    }
}

/// The identifier at byte `byte` of `source`, whose tree is rooted at `root`.
pub fn identifier_at_position(root: &SyntaxNode, byte: usize, source: &str) -> (r: Option<String>)
    ensures
        r matches Some(s) ==> identifier_at(source.spec_bytes(), *root, byte as int) == Some(s@),
        r is None ==> identifier_at(source.spec_bytes(), *root, byte as int) is None,
{
    let node = match deepest_node_at(root, byte) {
        Some(n) => n,
        None => {
            return None;
        },
    };
    if kind_is(node, "identifier") {
        node_text(source.as_bytes(), node)
    } else if kind_is(node, "atom") {
        match named_child(node, 0) {
            Some(c) => if kind_is(c, "identifier") {
                node_text(source.as_bytes(), c)
            } else {
                None
            },
            None => None,
        }
    } else {
        None
    }
}

/// A text, unless it is empty.
pub open spec fn non_empty(t: Seq<char>) -> Option<Seq<char>> {
    if t.len() > 0 {
        Some(t)
    } else {
        None
    }
}

/// The module a `load` argument names: a string without its quotes, an
/// identifier, or what the first named child of an atom names; never empty.
pub open spec fn load_argument(src: Seq<u8>, n: SyntaxNode) -> Option<Seq<char>>
    decreases n,
{
    if n.kind@ == "string"@ {
        match node_text_of(src, n) {
            Some(t) => non_empty(trim_char(t, '"')),
            None => None,
        }
    } else if n.kind@ == "identifier"@ {
        match node_text_of(src, n) {
            Some(t) => non_empty(t),
            None => None,
        }
    } else if n.kind@ == "atom"@ {
        match named_index(n.children@, 0) {
            Some(k) => if 0 <= k < n.children@.len() {
                load_argument(src, n.children@[k])
            } else {
                None
            },
            None => None,
        }
    } else {
        None
    }
}

/// The module that the argument `node` of a `load` call names.
pub fn extract_load_argument(node: &SyntaxNode, source: &str) -> (r: Option<String>)
    ensures
        r matches Some(s) ==> load_argument(source.spec_bytes(), *node) == Some(s@),
        r is None ==> load_argument(source.spec_bytes(), *node) is None,
    decreases node,
{
    if kind_is(node, "string") {
        match node_text(source.as_bytes(), node) {
            Some(t) => {
                let cs = chars_of(t.as_str());
                let inner = trim_matches(cs.as_slice(), '"');
                if inner.len() > 0 {
                    Some(string_of(inner.as_slice()))
                } else {
                    None
                }
            },
            None => None,
        }
    } else if kind_is(node, "identifier") {
        match node_text(source.as_bytes(), node) {
            Some(t) => if !t.as_str().is_empty() {
                Some(t)
            } else {
                None
            },
            None => None,
        }
    } else if kind_is(node, "atom") {
        match named_position(node, 0) {
            Some(k) => extract_load_argument(&node.children[k], source),
            None => None,
        }
    } else {
        None
    }
}

/// Whether an operator defines what stands on its left.
pub open spec fn is_def_operator(k: Seq<char>) -> bool {
    k == ":="@ || k == "::="@ || k == ":"@ || k == "::"@
}

/// Whether `op` is one of the defining operators `:=`, `::=`, `:`, `::`.
pub fn is_definition_operator(op: &str) -> (b: bool)
    ensures
        b == is_def_operator(op@),
{
    str_equals(op, ":=") || str_equals(op, "::=") || str_equals(op, ":") || str_equals(op, "::")
}

/// The range a node spans, by rows and columns.
pub open spec fn node_range(n: SyntaxNode) -> Range {
    Range {
        start: Position { line: n.start_row as u32, character: n.start_column as u32 },
        end: Position { line: n.end_row as u32, character: n.end_column as u32 },
    }
}

/// The range node `n` spans.
pub fn range_of(n: &SyntaxNode) -> (r: Range)
    ensures
        r == node_range(*n),
{
    Range {
        start: Position {
            line: #[verifier::truncate] (n.start_row as u32),
            character: #[verifier::truncate] (n.start_column as u32),
        },
        end: Position {
            line: #[verifier::truncate] (n.end_row as u32),
            character: #[verifier::truncate] (n.end_column as u32),
        },
    }
}

/// The name node `n` defines: a binary expression whose operator (its second
/// child) is a defining one defines the name of its left side.
pub open spec fn defined_name(src: Seq<u8>, n: SyntaxNode) -> Option<Seq<char>> {
    if n.kind@ == "binary_expression"@ && (child_at(n, 1) matches Some(op) && is_def_operator(
        op.kind@,
    )) {
        name_of(src, child_at(n, 0))
    } else {
        None
    }
}

/// The definitions among the nodes `ns`, by name, in document `uri`: a later
/// one replaces an earlier one of the same name, and empty names are left
/// out.
pub open spec fn definitions_in(src: Seq<u8>, uri: Seq<char>, ns: Seq<SyntaxNode>) -> Map<
    Seq<char>,
    LocationView,
>
    decreases ns.len(),
{
    if ns.len() == 0 {
        Map::empty()
    } else {
        let m = definitions_in(src, uri, ns.drop_last());
        match defined_name(src, ns.last()) {
            Some(name) => if name.len() > 0 {
                m.insert(name, LocationView { uri, range: node_range(ns.last()) })
            } else {
                m
            },
            None => m,
        }
    }
}

/// Records the definition of `name` by `node`, unless the name is empty.
fn insert_definition(defs: &mut NameMap<Location>, name: String, node: &SyntaxNode, uri: &str)
    ensures
        name@.len() == 0 ==> location_views(final(defs).map()) == location_views(old(defs).map()),
        name@.len() > 0 ==> location_views(final(defs).map()) == location_views(
            old(defs).map(),
        ).insert(name@, LocationView { uri: uri@, range: node_range(*node) }),
{
    if name.as_str().is_empty() {
        return;
    }
    let loc = Location { uri: String::from_str(uri), range: range_of(node) };
    let ghost before = defs.map();
    let ghost k = name@;
    let ghost lv = loc@;
    defs.insert(name, loc);
    assert(location_views(defs.map()) =~= location_views(before).insert(k, lv));
}

/// The definitions of a Maxima syntax tree by name: every visit of the tree
/// walk to a binary expression with a defining operator records the name of
/// its left side, in document `uri`.
pub fn collect_definitions(root: &SyntaxNode, source: &str, uri: &str) -> (r: NameMap<Location>)
    ensures
        location_views(r.map()) == definitions_in(source.spec_bytes(), uri@, tour(*root)),
{
    let visits = tour_nodes(root);
    let ghost vs = derefs(visits@);
    let mut defs: NameMap<Location> = NameMap::new();
    assert(location_views(defs.map()) =~= definitions_in(
        source.spec_bytes(),
        uri@,
        vs.subrange(0, 0),
    ));
    let mut i: usize = 0;
    while i < visits.len()
        invariant
            i <= visits@.len(),
            vs == derefs(visits@),
            vs == tour(*root),
            location_views(defs.map()) == definitions_in(
                source.spec_bytes(),
                uri@,
                vs.subrange(0, i as int),
            ),
        decreases visits@.len() - i,
    {
        let node = visits[i];
        let ghost sub = vs.subrange(0, i + 1);
        assert(sub.drop_last() =~= vs.subrange(0, i as int));
        assert(sub.last() == *node);
        if kind_is(node, "binary_expression") {
            match child(node, 1) {
                Some(op) => {
                    if is_definition_operator(op.kind.as_str()) {
                        match extract_name(child(node, 0), source) {
                            Some(name) => {
                                insert_definition(&mut defs, name, node, uri);
                            },
                            None => {},
                        }
                    }
                },
                None => {},
            }
        }
        i = i + 1;
    }
    assert(vs.subrange(0, vs.len() as int) =~= vs);
    defs
}

/// Whether `m` holds the definitions of Maxima `source` in the grammar
/// `lang`, located in document `uri`: those of its syntax tree, none when
/// the grammar is refused.
pub open spec fn definitions_result(
    m: Map<Seq<char>, LocationView>,
    uri: Seq<char>,
    lang: tree_sitter::Language,
    source: Seq<char>,
) -> bool {
    if accepted(lang) {
        exists|t: SyntaxNode| parse_of(t, lang, source) && m == definitions_in(encode_utf8(source), uri, tour(t))
    } else {
        m == Map::<Seq<char>, LocationView>::empty()
    }
}

/// The definitions of Maxima `source` in the grammar `lang`, by name, in
/// document `uri`; none when the parser refuses the grammar.
pub fn collect_definitions_from_source(source: &str, uri: &str, lang: &tree_sitter::Language) -> (r:
    NameMap<Location>)
    ensures
        definitions_result(location_views(r.map()), uri@, *lang, source@),
{
    match parse_with(lang, source) {
        Some(tree) => collect_definitions(&tree, source, uri),
        None => {
            let r = NameMap::new();
            assert(location_views(r.map()) =~= Map::<Seq<char>, LocationView>::empty());
            r
        },
    }
}

} // verus!
