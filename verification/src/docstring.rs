//! Documentation comments of user-defined functions: parsing a comment into
//! description, parameters, return value and examples, and attaching
//! comments to the definitions that follow them.

use vstd::prelude::*;
use vstd::string::StringSliceAdditionalSpecFns;
use crate::definitions::{extract_name, name_of};
use crate::docs::{clone_strings, string_views, DocEntry, DocEntryView};
use crate::lisp_extractor::{external_views, text_or_empty};
use crate::name_map::NameMap;
use crate::parse::{accepted, parse_of, parse_with};
use vstd::utf8::encode_utf8;
use crate::syntax::{child, child_at, derefs, kind_is, node_text, tour, tour_nodes, SyntaxNode};
use crate::text::{
    append_str, chars_of, copy_range, ends_with, has_prefix, has_suffix, lines, lines_of,
    starts_with, string_of, trim, trim_chars, views,
};

verus! {

/// What a parsed documentation comment says.
#[verifier::ext_equal]
pub struct ParsedDocView {
    pub doc: Seq<char>,
    pub params: Seq<Seq<char>>,
    pub return_doc: Seq<char>,
    pub examples: Seq<Seq<char>>,
}

/// A documentation comment split into its parts.
pub struct ParsedDoc {
    pub doc: String,
    pub params: Vec<String>,
    pub return_doc: String,
    pub examples: Vec<String>,
}

impl View for ParsedDoc {
    type V = ParsedDocView;

    open spec fn view(&self) -> ParsedDocView {
        ParsedDocView {
            doc: self.doc@,
            params: string_views(self.params@),
            return_doc: self.return_doc@,
            examples: string_views(self.examples@),
        }
    }
}

/// The text of a comment without its delimiters: trimmed, then without a
/// leading `/*` and a trailing `*/`, then trimmed again.
pub open spec fn comment_body(c: Seq<char>) -> Seq<char> {
    let t = trim(c);
    let t1 = if starts_with(t, "/*"@) {
        t.subrange(2, t.len() as int)
    } else {
        t
    };
    let t2 = if ends_with(t1, "*/"@) {
        t1.subrange(0, t1.len() - 2)
    } else {
        t1
    };
    trim(t2)
}

/// `t` without its first `n` characters.
pub open spec fn after(t: Seq<char>, n: int) -> Seq<char> {
    t.subrange(n, t.len() as int)
}

/// The description `d` extended by one more non-empty line `t`, the two
/// separated by a space.
pub open spec fn join_line(d: Seq<char>, t: Seq<char>) -> Seq<char> {
    if d.len() == 0 {
        t
    } else {
        d + " "@ + t
    }
}

/// What one trimmed comment line adds: a `@param` line a parameter, a
/// `@returns` (or `@return`) line the return value, an `@example` line an
/// example, and any other non-empty line a piece of the description.
pub open spec fn doc_step(d: ParsedDocView, t: Seq<char>) -> ParsedDocView {
    if starts_with(t, "@param"@) {
        ParsedDocView { params: d.params.push(trim(after(t, 6))), ..d }
    } else if starts_with(t, "@returns"@) {
        ParsedDocView { return_doc: trim(after(t, 8)), ..d }
    } else if starts_with(t, "@return"@) {
        ParsedDocView { return_doc: trim(after(t, 7)), ..d }
    } else if starts_with(t, "@example"@) {
        ParsedDocView { examples: d.examples.push(trim(after(t, 8))), ..d }
    } else if t.len() > 0 {
        ParsedDocView { doc: join_line(d.doc, t), ..d }
    } else {
        d
    }
}

/// The documentation gathered from the lines, in order.
pub open spec fn parse_lines(ls: Seq<Seq<char>>) -> ParsedDocView
    decreases ls.len(),
{
    if ls.len() == 0 {
        ParsedDocView {
            doc: Seq::empty(),
            params: Seq::empty(),
            return_doc: Seq::empty(),
            examples: Seq::empty(),
        }
    } else {
        doc_step(parse_lines(ls.drop_last()), trim(ls.last()))
    }
}

/// The documentation a comment gives.
pub open spec fn parsed_comment(c: Seq<char>) -> ParsedDocView {
    parse_lines(lines(comment_body(c)))
}

/// Trimmed `t` without its first `n` characters, as a string.
fn trimmed_after(t: &Vec<char>, n: usize) -> (s: String)
    requires
        n <= t@.len(),
    ensures
        s@ == trim(after(t@, n as int)),
{
    let rest = copy_range(t.as_slice(), n, t.len());
    let r = trim_chars(rest.as_slice());
    string_of(r.as_slice())
}

/// Splits a documentation comment into description, parameters, return
/// value and examples. Recognizes comments such as
/// `/* Description @param x - the input @returns the result @example f(1) */`,
/// one tag per line.
pub fn parse_docstring_ext(comment: &str, _name: &str) -> (p: ParsedDoc)
    ensures
        p@ == parsed_comment(comment@),
{
    let c = chars_of(comment);
    let t = trim_chars(c.as_slice());
    let open = chars_of("/*");
    let close = chars_of("*/");
    proof {
        reveal_strlit("/*");
        reveal_strlit("*/");
    }
    let t1 = if has_prefix(t.as_slice(), open.as_slice()) {
        copy_range(t.as_slice(), 2, t.len())
    } else {
        t
    };
    let t2 = if has_suffix(t1.as_slice(), close.as_slice()) {
        copy_range(t1.as_slice(), 0, t1.len() - 2)
    } else {
        t1
    };
    let body = trim_chars(t2.as_slice());
    assert(body@ == comment_body(comment@));
    let ls = lines_of(body.as_slice());
    let ghost lv = views(ls@);
    let tag_param = chars_of("@param");
    let tag_returns = chars_of("@returns");
    let tag_return = chars_of("@return");
    let tag_example = chars_of("@example");
    let mut doc: Vec<char> = Vec::new();
    let mut params: Vec<String> = Vec::new();
    let mut return_doc = String::new();
    let mut examples: Vec<String> = Vec::new();
    assert(ParsedDocView {
        doc: doc@,
        params: string_views(params@),
        return_doc: return_doc@,
        examples: string_views(examples@),
    } =~= parse_lines(lv.subrange(0, 0)));
    let mut i: usize = 0;
    while i < ls.len()
        invariant
            i <= ls@.len(),
            lv == views(ls@),
            tag_param@ == "@param"@,
            tag_returns@ == "@returns"@,
            tag_return@ == "@return"@,
            tag_example@ == "@example"@,
            (ParsedDocView {
                doc: doc@,
                params: string_views(params@),
                return_doc: return_doc@,
                examples: string_views(examples@),
            }) == parse_lines(lv.subrange(0, i as int)),
        decreases ls@.len() - i,
    {
        let line = trim_chars(ls[i].as_slice());
        proof {
            reveal_strlit("@param");
            reveal_strlit("@returns");
            reveal_strlit("@return");
            reveal_strlit("@example");
        }
        let ghost before = ParsedDocView {
            doc: doc@,
            params: string_views(params@),
            return_doc: return_doc@,
            examples: string_views(examples@),
        };
        if has_prefix(line.as_slice(), tag_param.as_slice()) {
            let s = trimmed_after(&line, 6);
            let ghost pv = params@;
            params.push(s);
            assert(string_views(params@) =~= string_views(pv).push(s@));
        } else if has_prefix(line.as_slice(), tag_returns.as_slice()) {
            return_doc = trimmed_after(&line, 8);
        } else if has_prefix(line.as_slice(), tag_return.as_slice()) {
            return_doc = trimmed_after(&line, 7);
        } else if has_prefix(line.as_slice(), tag_example.as_slice()) {
            let s = trimmed_after(&line, 8);
            let ghost ev = examples@;
            examples.push(s);
            assert(string_views(examples@) =~= string_views(ev).push(s@));
        } else if line.len() > 0 {
            if doc.len() == 0 {
                let mut k: usize = 0;
                let ghost d0 = doc@;
                while k < line.len()
                    invariant
                        k <= line@.len(),
                        d0.len() == 0,
                        doc@ == line@.subrange(0, k as int),
                    decreases line@.len() - k,
                {
                    doc.push(line[k]);
                    k = k + 1;
                    assert(doc@ =~= line@.subrange(0, k as int));
                }
                assert(line@.subrange(0, line@.len() as int) =~= line@);
            } else {
                let ghost d0 = doc@;
                doc.push(' ');
                let mut k: usize = 0;
                while k < line.len()
                    invariant
                        k <= line@.len(),
                        doc@ == d0.push(' ') + line@.subrange(0, k as int),
                    decreases line@.len() - k,
                {
                    doc.push(line[k]);
                    k = k + 1;
                    assert(doc@ =~= d0.push(' ') + line@.subrange(0, k as int));
                }
                assert(doc@ =~= d0 + " "@ + line@) by {
                    reveal_strlit(" ");
                    assert(line@.subrange(0, line@.len() as int) =~= line@);
                }
            }
        }
        let ghost sub = lv.subrange(0, i + 1);
        assert(sub.drop_last() =~= lv.subrange(0, i as int));
        assert(sub.last() == ls@[i as int]@);
        assert(ParsedDocView {
            doc: doc@,
            params: string_views(params@),
            return_doc: return_doc@,
            examples: string_views(examples@),
        } =~= doc_step(before, trim(sub.last())));
        i = i + 1;
    }
    let p = ParsedDoc { doc: string_of(doc.as_slice()), params, return_doc, examples };
    assert(lv.subrange(0, lv.len() as int) =~= lv);
    p
}

/// What an external documentation record says.
#[verifier::ext_equal]
pub struct ExternalDocView {
    pub name: Seq<char>,
    pub signature: Seq<char>,
    pub doc: Seq<char>,
    pub params: Seq<Seq<char>>,
    pub return_doc: Seq<char>,
    pub examples: Seq<Seq<char>>,
    pub source_file: Seq<char>,
}

/// Documentation of a user-defined function, taken from the comment that
/// precedes its definition.
pub struct ExternalDoc {
    pub name: String,
    pub signature: String,
    pub doc: String,
    pub params: Vec<String>,
    pub return_doc: String,
    pub examples: Vec<String>,
    pub source_file: String,
}

impl View for ExternalDoc {
    type V = ExternalDocView;

    open spec fn view(&self) -> ExternalDocView {
        ExternalDocView {
            name: self.name@,
            signature: self.signature@,
            doc: self.doc@,
            params: string_views(self.params@),
            return_doc: self.return_doc@,
            examples: string_views(self.examples@),
            source_file: self.source_file@,
        }
    }
}

impl ExternalDoc {
    /// A copy of this record.
    pub fn duplicate(&self) -> (d: ExternalDoc)
        ensures
            d@ == self@,
    {
        ExternalDoc {
            name: self.name.clone(),
            signature: self.signature.clone(),
            doc: self.doc.clone(),
            params: clone_strings(&self.params),
            return_doc: self.return_doc.clone(),
            examples: clone_strings(&self.examples),
            source_file: self.source_file.clone(),
        }
    }
}

/// The documentation entry shown for an external record: its texts, with
/// the category `user: ` followed by the file it came from.
pub open spec fn external_entry(d: ExternalDocView) -> DocEntryView {
    DocEntryView {
        signature: d.signature,
        doc: d.doc,
        params: d.params,
        return_doc: d.return_doc,
        examples: d.examples,
        category: "user: "@ + d.source_file,
    }
}

/// Converts an external record to the entry shown on hover and completion.
pub fn external_to_docentry(doc: &ExternalDoc) -> (e: DocEntry)
    ensures
        e@ == external_entry(doc@),
{
    let mut category = String::new();
    append_str(&mut category, "user: ");
    append_str(&mut category, doc.source_file.as_str());
    assert(category@ =~= "user: "@ + doc.source_file@);
    DocEntry {
        signature: doc.signature.clone(),
        doc: doc.doc.clone(),
        params: clone_strings(&doc.params),
        return_doc: doc.return_doc.clone(),
        examples: clone_strings(&doc.examples),
        category,
    }
}

/// Whether node `n` defines a function: a binary expression whose second
/// child is the operator `:=` or `::=`.
pub open spec fn is_function_definition(n: SyntaxNode) -> bool {
    n.kind@ == "binary_expression"@ && (child_at(n, 1) matches Some(op) && (op.kind@ == ":="@
        || op.kind@ == "::="@))
}

/// Whether node `n` is a comment.
pub open spec fn is_comment(n: SyntaxNode) -> bool {
    n.kind@ == "comment"@
}

/// The test for function definitions, as a value.
pub open spec fn definition_test() -> spec_fn(SyntaxNode) -> bool {
    |n: SyntaxNode| is_function_definition(n)
}

/// The test for comments, as a value.
pub open spec fn comment_test() -> spec_fn(SyntaxNode) -> bool {
    |n: SyntaxNode| is_comment(n)
}

/// Whether a byte is a space, a tab, a line feed or a carriage return.
pub open spec fn is_blank_byte(b: u8) -> bool {
    b == 32 || b == 9 || b == 10 || b == 13
}

/// Whether the bytes `src[a..b]` are there, at least one, and all blank.
pub open spec fn blank_between(src: Seq<u8>, a: int, b: int) -> bool {
    0 <= a < b <= src.len() && forall|i: int| a <= i < b ==> is_blank_byte(#[trigger] src[i])
}

/// The last of the comments `cs` that only blanks separate from a
/// definition starting at byte `start`.
pub open spec fn comment_before(src: Seq<u8>, cs: Seq<SyntaxNode>, start: int) -> Option<SyntaxNode>
    decreases cs.len(),
{
    if cs.len() == 0 {
        None
    } else if blank_between(src, cs.last().end_byte as int, start) {
        Some(cs.last())
    } else {
        comment_before(src, cs.drop_last(), start)
    }
}

/// The name a definition `d` defines, or the empty text.
pub open spec fn defined_function(src: Seq<u8>, d: SyntaxNode) -> Seq<char> {
    match name_of(src, child_at(d, 0)) {
        Some(t) => t,
        None => Seq::empty(),
    }
}

/// The text of the left side of a definition `d`, or the empty text.
pub open spec fn left_side(src: Seq<u8>, d: SyntaxNode) -> Seq<char> {
    match child_at(d, 0) {
        Some(c) => text_or_empty(src, c),
        None => Seq::empty(),
    }
}

/// The record of definition `d`: the parts of the comment just before it,
/// or, with no such comment, the description `name (user-defined)`.
pub open spec fn docstring_record(src: Seq<u8>, d: SyntaxNode, cs: Seq<SyntaxNode>) -> ExternalDocView {
    let name = defined_function(src, d);
    let signature = left_side(src, d);
    match comment_before(src, cs, d.start_byte as int) {
        Some(c) => {
            let p = parsed_comment(text_or_empty(src, c));
            ExternalDocView {
                name,
                signature,
                doc: p.doc,
                params: p.params,
                return_doc: p.return_doc,
                examples: p.examples,
                source_file: Seq::empty(),
            }
        },
        None => ExternalDocView {
            name,
            signature,
            doc: name + " (user-defined)"@,
            params: Seq::empty(),
            return_doc: Seq::empty(),
            examples: Seq::empty(),
            source_file: Seq::empty(),
        },
    }
}

/// The records of the definitions `ds` by name, a later one replacing an
/// earlier one of the same name.
pub open spec fn docstrings_in(src: Seq<u8>, ds: Seq<SyntaxNode>, cs: Seq<SyntaxNode>) -> Map<
    Seq<char>,
    ExternalDocView,
>
    decreases ds.len(),
{
    if ds.len() == 0 {
        Map::empty()
    } else {
        docstrings_in(src, ds.drop_last(), cs).insert(
            defined_function(src, ds.last()),
            docstring_record(src, ds.last(), cs),
        )
    }
}

/// The documented functions of a Maxima tree: the function definitions and
/// the comments met on the tree walk, each definition with the comment that
/// precedes it.
pub open spec fn docstrings_of(src: Seq<u8>, root: SyntaxNode) -> Map<Seq<char>, ExternalDocView> {
    let t = tour(root);
    docstrings_in(src, t.filter(definition_test()), t.filter(comment_test()))
}

/// Whether node `n` defines a function.
fn defines_function(n: &SyntaxNode) -> (b: bool)
    ensures
        b == is_function_definition(*n),
{
    if !kind_is(n, "binary_expression") {
        return false;
    }
    match child(n, 1) {
        Some(op) => kind_is(op, ":=") || kind_is(op, "::="),
        None => false,
    }
}

/// The nodes among `v` that pass `test`.
fn select_nodes<'a>(v: &Vec<&'a SyntaxNode>, comments: bool) -> (r: Vec<&'a SyntaxNode>)
    ensures
        comments ==> derefs(r@) == derefs(v@).filter(comment_test()),
        !comments ==> derefs(r@) == derefs(v@).filter(definition_test()),
{
    let ghost test = if comments {
        comment_test()
    } else {
        definition_test()
    };
    let ghost vs = derefs(v@);
    let mut r: Vec<&'a SyntaxNode> = Vec::new();
    proof {
        reveal(Seq::filter);
    }
    assert(derefs(r@) =~= vs.subrange(0, 0).filter(test));
    let mut i: usize = 0;
    while i < v.len()
        invariant
            i <= v@.len(),
            vs == derefs(v@),
            test == (if comments {
                comment_test()
            } else {
                definition_test()
            }),
            derefs(r@) == vs.subrange(0, i as int).filter(test),
        decreases v@.len() - i,
    {
        let n = v[i];
        proof {
            vs.subrange(0, i as int).lemma_filter_push(*n, test);
            assert(vs.subrange(0, i + 1) =~= vs.subrange(0, i as int).push(*n));
        }
        let keep = if comments {
            kind_is(n, "comment")
        } else {
            defines_function(n)
        };
        if keep {
            let ghost before = derefs(r@);
            r.push(n);
            assert(derefs(r@) =~= before.push(*n));
        }
        i = i + 1;
    }
    assert(vs.subrange(0, vs.len() as int) =~= vs);
    r
}

/// Whether the bytes `src[a..b]` are there, at least one, and all blank.
fn is_blank_gap(src: &[u8], a: usize, b: usize) -> (r: bool)
    ensures
        r == blank_between(src@, a as int, b as int),
{
    if a >= b || b > src.len() {
        return false;
    }
    let mut i = a;
    while i < b
        invariant
            a <= i <= b <= src@.len(),
            forall|j: int| a <= j < i ==> is_blank_byte(#[trigger] src@[j]),
        decreases b - i,
    {
        let c = src[i];
        if !(c == 32 || c == 9 || c == 10 || c == 13) {
            return false;
        }
        i = i + 1;
    }
    true
}

/// The last comment among `cs` that only blanks separate from byte `start`.
fn comment_preceding<'a>(src: &[u8], cs: &Vec<&'a SyntaxNode>, start: usize) -> (r: Option<
    &'a SyntaxNode,
>)
    ensures
        r matches Some(c) ==> comment_before(src@, derefs(cs@), start as int) == Some(*c),
        r is None ==> comment_before(src@, derefs(cs@), start as int) is None,
{
    let ghost all = derefs(cs@);
    let mut k = cs.len();
    assert(all.subrange(0, k as int) =~= all);
    while k > 0
        invariant
            k <= cs@.len(),
            all == derefs(cs@),
            comment_before(src@, all, start as int) == comment_before(
                src@,
                all.subrange(0, k as int),
                start as int,
            ),
        decreases k,
    {
        let c = cs[k - 1];
        let ghost sub = all.subrange(0, k as int);
        assert(sub.last() == *c);
        assert(sub.drop_last() =~= all.subrange(0, k - 1));
        if is_blank_gap(src, c.end_byte, start) {
            return Some(c);
        }
        k = k - 1;
    }
    None
}

/// The text of node `n`, or the empty string.
fn text_or_blank(src: &[u8], n: &SyntaxNode) -> (s: String)
    ensures
        s@ == text_or_empty(src@, *n),
{
    match node_text(src, n) {
        Some(t) => t,
        None => String::new(),
    }
}

/// The record of the definition `d`, documented by the comment that
/// precedes it among `cs`.
fn docstring_record_of(source: &str, d: &SyntaxNode, cs: &Vec<&SyntaxNode>) -> (e: ExternalDoc)
    ensures
        e@ == docstring_record(source.spec_bytes(), *d, derefs(cs@)),
{
    let src = source.as_bytes();
    let name = match extract_name(child(d, 0), source) {
        Some(t) => t,
        None => String::new(),
    };
    let signature = match child(d, 0) {
        Some(c) => text_or_blank(src, c),
        None => String::new(),
    };
    match comment_preceding(src, cs, d.start_byte) {
        Some(c) => {
            let text = text_or_blank(src, c);
            let p = parse_docstring_ext(text.as_str(), name.as_str());
            ExternalDoc {
                name,
                signature,
                doc: p.doc,
                params: p.params,
                return_doc: p.return_doc,
                examples: p.examples,
                source_file: String::new(),
            }
        },
        None => {
            let mut doc = name.clone();
            append_str(&mut doc, " (user-defined)");
            let e = ExternalDoc {
                name,
                signature,
                doc,
                params: Vec::new(),
                return_doc: String::new(),
                examples: Vec::new(),
                source_file: String::new(),
            };
            assert(e@.params =~= Seq::<Seq<char>>::empty());
            assert(e@.examples =~= Seq::<Seq<char>>::empty());
            e
        },
    }
}

/// The documented functions of a Maxima source, whose tree is rooted at
/// `root`, by name.
pub fn docstrings_from_tree(source: &str, root: &SyntaxNode) -> (r: NameMap<ExternalDoc>)
    ensures
        external_views(r.map()) == docstrings_of(source.spec_bytes(), *root),
{
    let visits = tour_nodes(root);
    let defs = select_nodes(&visits, false);
    let comments = select_nodes(&visits, true);
    let ghost ds = derefs(defs@);
    let ghost cs = derefs(comments@);
    let mut r: NameMap<ExternalDoc> = NameMap::new();
    assert(external_views(r.map()) =~= docstrings_in(source.spec_bytes(), ds.subrange(0, 0), cs));
    let mut i: usize = 0;
    while i < defs.len()
        invariant
            i <= defs@.len(),
            ds == derefs(defs@),
            cs == derefs(comments@),
            external_views(r.map()) == docstrings_in(
                source.spec_bytes(),
                ds.subrange(0, i as int),
                cs,
            ),
        decreases defs@.len() - i,
    {
        let d = defs[i];
        let rec = docstring_record_of(source, d, &comments);
        let ghost before = r.map();
        let ghost rv = rec@;
        let ghost sub = ds.subrange(0, i + 1);
        assert(sub.drop_last() =~= ds.subrange(0, i as int));
        assert(sub.last() == *d);
        r.insert(rec.name.clone(), rec);
        assert(external_views(r.map()) =~= external_views(before).insert(rv.name, rv));
        i = i + 1;
    }
    assert(ds.subrange(0, ds.len() as int) =~= ds);
    r
}

/// Whether `m` holds the documented functions of Maxima `source` in the
/// grammar `lang`: those of its syntax tree, none when the grammar is
/// refused.
pub open spec fn docstrings_result(
    m: Map<Seq<char>, ExternalDocView>,
    lang: tree_sitter::Language,
    source: Seq<char>,
) -> bool {
    if accepted(lang) {
        exists|t: SyntaxNode| parse_of(t, lang, source) && m == docstrings_of(encode_utf8(source), t)
    } else {
        m == Map::<Seq<char>, ExternalDocView>::empty()
    }
}

/// The documented functions of Maxima `source`, parsed in the grammar
/// `lang`, by name; none when the parser refuses the grammar.
pub fn extract_docstrings(source: &str, lang: &tree_sitter::Language) -> (r: NameMap<ExternalDoc>)
    ensures
        docstrings_result(external_views(r.map()), *lang, source@),
{
    match parse_with(lang, source) {
        Some(tree) => docstrings_from_tree(source, &tree),
        None => {
            let r = NameMap::new();
            assert(external_views(r.map()) =~= Map::<Seq<char>, ExternalDocView>::empty());
            r
        },
    }
}

} // verus!
