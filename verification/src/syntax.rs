//! Syntax trees as plain data: the kind, position and children of each
//! node of a parse, with the orders in which the walks visit them.

use vstd::prelude::*;
use vstd::utf8::{decode_utf8, valid_utf8};

verus! {

/// A node of a syntax tree.
pub struct SyntaxNode {
    pub kind: String,
    pub named: bool,
    pub is_error: bool,
    pub is_missing: bool,
    pub start_byte: usize,
    pub end_byte: usize,
    pub start_row: usize,
    pub start_column: usize,
    pub end_row: usize,
    pub end_column: usize,
    pub children: Vec<SyntaxNode>,
}

/// The nodes of the tree rooted at `n`, each listed when first reached,
/// parents before their children (pre-order).
pub open spec fn preorder(n: SyntaxNode) -> Seq<SyntaxNode>
    decreases n,
{
    seq![n] + preorder_list(n.children@)
}

/// The pre-orders of the trees in `cs`, one after the other.
pub open spec fn preorder_list(cs: Seq<SyntaxNode>) -> Seq<SyntaxNode>
    decreases cs,
{
    if cs.len() == 0 {
        Seq::empty()
    } else {
        preorder(cs[0]) + preorder_list(cs.subrange(1, cs.len() as int))
    }
}

/// The visits a tree cursor makes walking the tree rooted at `n`: a node is
/// visited when the walk reaches it and once more when the walk returns to
/// it from its last child.
pub open spec fn tour(n: SyntaxNode) -> Seq<SyntaxNode>
    decreases n,
{
    if n.children@.len() == 0 {
        seq![n]
    } else {
        seq![n] + tour_list(n.children@) + seq![n]
    }
}

/// The tours of the trees in `cs`, one after the other.
pub open spec fn tour_list(cs: Seq<SyntaxNode>) -> Seq<SyntaxNode>
    decreases cs,
{
    if cs.len() == 0 {
        Seq::empty()
    } else {
        tour(cs[0]) + tour_list(cs.subrange(1, cs.len() as int))
    }
}


/// The nodes a sequence of references points to.
pub open spec fn derefs(v: Seq<&SyntaxNode>) -> Seq<SyntaxNode> {
    v.map_values(|x: &SyntaxNode| *x)
}

pub proof fn lemma_preorder_list_push(cs: Seq<SyntaxNode>, i: int)
    requires
        0 <= i < cs.len(),
    ensures
        preorder_list(cs.subrange(0, i + 1)) == preorder_list(cs.subrange(0, i)) + preorder(cs[i]),
    decreases i,
{
    let a = cs.subrange(0, i + 1);
    let b = cs.subrange(0, i);
    if i == 0 {
        assert(a.subrange(1, a.len() as int) =~= Seq::<SyntaxNode>::empty());
        assert(preorder_list(a.subrange(1, a.len() as int)) =~= Seq::<SyntaxNode>::empty());
        assert(a[0] == cs[0]);
        assert(preorder_list(a) =~= preorder(cs[0]));
        assert(preorder_list(b) =~= Seq::<SyntaxNode>::empty());
    } else {
        let t = cs.subrange(1, cs.len() as int);
        lemma_preorder_list_push(t, i - 1);
        assert(a.subrange(1, a.len() as int) =~= t.subrange(0, i));
        assert(b.subrange(1, b.len() as int) =~= t.subrange(0, i - 1));
        assert(a[0] == cs[0] && b[0] == cs[0] && t[i - 1] == cs[i]);
        assert(preorder_list(a) =~= preorder(cs[0]) + preorder_list(t.subrange(0, i)));
        assert(preorder_list(b) =~= preorder(cs[0]) + preorder_list(t.subrange(0, i - 1)));
    }
}

pub proof fn lemma_tour_list_push(cs: Seq<SyntaxNode>, i: int)
    requires
        0 <= i < cs.len(),
    ensures
        tour_list(cs.subrange(0, i + 1)) == tour_list(cs.subrange(0, i)) + tour(cs[i]),
    decreases i,
{
    let a = cs.subrange(0, i + 1);
    let b = cs.subrange(0, i);
    if i == 0 {
        assert(a.subrange(1, a.len() as int) =~= Seq::<SyntaxNode>::empty());
        assert(tour_list(a.subrange(1, a.len() as int)) =~= Seq::<SyntaxNode>::empty());
        assert(a[0] == cs[0]);
        assert(tour_list(a) =~= tour(cs[0]));
        assert(tour_list(b) =~= Seq::<SyntaxNode>::empty());
    } else {
        let t = cs.subrange(1, cs.len() as int);
        lemma_tour_list_push(t, i - 1);
        assert(a.subrange(1, a.len() as int) =~= t.subrange(0, i));
        assert(b.subrange(1, b.len() as int) =~= t.subrange(0, i - 1));
        assert(a[0] == cs[0] && b[0] == cs[0] && t[i - 1] == cs[i]);
        assert(tour_list(a) =~= tour(cs[0]) + tour_list(t.subrange(0, i)));
        assert(tour_list(b) =~= tour(cs[0]) + tour_list(t.subrange(0, i - 1)));
    }
}

/// Appends the pre-order of the tree rooted at `n`.
pub fn preorder_into<'a>(n: &'a SyntaxNode, out: &mut Vec<&'a SyntaxNode>)
    ensures
        derefs(final(out)@) == derefs(old(out)@) + preorder(*n),
    decreases n,
{
    let ghost start = derefs(out@);
    out.push(n);
    assert(derefs(out@) =~= start + seq![*n]);
    let mut i: usize = 0;
    while i < n.children.len()
        invariant
            i <= n.children@.len(),
            derefs(out@) == start + seq![*n] + preorder_list(n.children@.subrange(0, i as int)),
        decreases n.children@.len() - i,
    {
        proof {
            lemma_preorder_list_push(n.children@, i as int);
        }
        preorder_into(&n.children[i], out);
        i = i + 1;
        assert(derefs(out@) =~= start + seq![*n] + preorder_list(
            n.children@.subrange(0, i as int),
        ));
    }
    assert(n.children@.subrange(0, n.children@.len() as int) =~= n.children@);
    assert(derefs(out@) =~= start + preorder(*n));
}

/// The nodes of the tree rooted at `n`, in pre-order.
pub fn preorder_nodes<'a>(n: &'a SyntaxNode) -> (r: Vec<&'a SyntaxNode>)
    ensures
        derefs(r@) == preorder(*n),
{
    let mut out: Vec<&'a SyntaxNode> = Vec::new();
    preorder_into(n, &mut out);
    assert(derefs(out@) =~= preorder(*n));
    out
}

/// Appends the visits of a cursor walk of the tree rooted at `n`.
pub fn tour_into<'a>(n: &'a SyntaxNode, out: &mut Vec<&'a SyntaxNode>)
    ensures
        derefs(final(out)@) == derefs(old(out)@) + tour(*n),
    decreases n,
{
    let ghost start = derefs(out@);
    out.push(n);
    assert(derefs(out@) =~= start + seq![*n]);
    let mut i: usize = 0;
    while i < n.children.len()
        invariant
            i <= n.children@.len(),
            derefs(out@) == start + seq![*n] + tour_list(n.children@.subrange(0, i as int)),
        decreases n.children@.len() - i,
    {
        proof {
            lemma_tour_list_push(n.children@, i as int);
        }
        tour_into(&n.children[i], out);
        i = i + 1;
        assert(derefs(out@) =~= start + seq![*n] + tour_list(n.children@.subrange(0, i as int)));
    }
    assert(n.children@.subrange(0, n.children@.len() as int) =~= n.children@);
    if n.children.len() > 0 {
        let ghost mid = derefs(out@);
        out.push(n);
        assert(derefs(out@) =~= mid + seq![*n]);
        assert(derefs(out@) =~= start + tour(*n));
    } else {
        assert(tour_list(n.children@) =~= Seq::<SyntaxNode>::empty());
        assert(derefs(out@) =~= start + tour(*n));
    }
}

/// The visits of a cursor walk of the tree rooted at `n`, in order.
pub fn tour_nodes<'a>(n: &'a SyntaxNode) -> (r: Vec<&'a SyntaxNode>)
    ensures
        derefs(r@) == tour(*n),
{
    let mut out: Vec<&'a SyntaxNode> = Vec::new();
    tour_into(n, &mut out);
    assert(derefs(out@) =~= tour(*n));
    out
}


/// `std::str::from_utf8`, as an owned string: the characters the bytes
/// encode, or `None` when they are not valid UTF-8.
#[verifier::external_body]
pub(crate) fn decode_bytes(v: &[u8]) -> (r: Option<String>)
    ensures
        r matches Some(s) ==> valid_utf8(v@) && s@ == decode_utf8(v@),
        r is None ==> !valid_utf8(v@),
{
    match std::str::from_utf8(v) {
        Ok(s) => Some(s.to_string()),
        Err(_) => None,
    }
}

/// The text that the bytes `src[a..b]` encode, when that range lies in
/// `src` and holds valid UTF-8.
pub open spec fn text_of(src: Seq<u8>, a: int, b: int) -> Option<Seq<char>> {
    if 0 <= a <= b <= src.len() && valid_utf8(src.subrange(a, b)) {
        Some(decode_utf8(src.subrange(a, b)))
    } else {
        None
    }
}

/// The source text of node `n`.
pub open spec fn node_text_of(src: Seq<u8>, n: SyntaxNode) -> Option<Seq<char>> {
    text_of(src, n.start_byte as int, n.end_byte as int)
}

/// The bytes `v[a..b]`, copied.
pub fn copy_bytes(v: &[u8], a: usize, b: usize) -> (r: Vec<u8>)
    requires
        a <= b <= v@.len(),
    ensures
        r@ == v@.subrange(a as int, b as int),
{
    let mut r: Vec<u8> = Vec::new();
    let mut i = a;
    while i < b
        invariant
            a <= i <= b <= v@.len(),
            r@ == v@.subrange(a as int, i as int),
        decreases b - i,
    {
        r.push(v[i]);
        i = i + 1;
        assert(r@ =~= v@.subrange(a as int, i as int));
    }
    r
}

/// The text of `src[a..b]`.
pub fn text_between(src: &[u8], a: usize, b: usize) -> (r: Option<String>)
    ensures
        r matches Some(s) ==> text_of(src@, a as int, b as int) == Some(s@),
        r is None ==> text_of(src@, a as int, b as int) is None,
{
    if a > b || b > src.len() {
        return None;
    }
    let bytes = copy_bytes(src, a, b);
    decode_bytes(bytes.as_slice())
}

/// The source text of node `n`.
pub fn node_text(src: &[u8], n: &SyntaxNode) -> (r: Option<String>)
    ensures
        r matches Some(s) ==> node_text_of(src@, *n) == Some(s@),
        r is None ==> node_text_of(src@, *n) is None,
{
    text_between(src, n.start_byte, n.end_byte)
}

/// The child at index `i`.
pub open spec fn child_at(n: SyntaxNode, i: int) -> Option<SyntaxNode> {
    if 0 <= i < n.children@.len() {
        Some(n.children@[i])
    } else {
        None
    }
}

/// The child at index `i`, if there is one.
pub fn child(n: &SyntaxNode, i: usize) -> (r: Option<&SyntaxNode>)
    ensures
        r matches Some(c) ==> child_at(*n, i as int) == Some(*c),
        r is None ==> child_at(*n, i as int) is None,
{
    if i < n.children.len() {
        Some(&n.children[i])
    } else {
        None
    }
}

/// Whether node `n` has the kind `k`.
pub fn kind_is(n: &SyntaxNode, k: &str) -> (b: bool)
    ensures
        b == (n.kind@ == k@),
{
    n.kind == String::from_str(k)
}

/// Where a node lies in its source: its bytes, and its rows and columns.
#[derive(Clone, Copy, Debug, PartialEq, Eq, Structural)]
pub struct TextRange {
    pub start_byte: usize,
    pub end_byte: usize,
    pub start_row: usize,
    pub start_column: usize,
    pub end_row: usize,
    pub end_column: usize,
}

/// Where node `n` lies.
pub open spec fn span_of(n: SyntaxNode) -> TextRange {
    TextRange {
        start_byte: n.start_byte,
        end_byte: n.end_byte,
        start_row: n.start_row,
        start_column: n.start_column,
        end_row: n.end_row,
        end_column: n.end_column,
    }
}

/// Where node `n` lies.
pub fn text_range(n: &SyntaxNode) -> (r: TextRange)
    ensures
        r == span_of(*n),
{
    TextRange {
        start_byte: n.start_byte,
        end_byte: n.end_byte,
        start_row: n.start_row,
        start_column: n.start_column,
        end_row: n.end_row,
        end_column: n.end_column,
    }
}

} // verus!
