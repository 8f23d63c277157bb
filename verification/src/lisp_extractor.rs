//! Definitions in Common Lisp sources: `defmfun`, `defmspec`, `defun`,
//! `defvar`, `defmvar` and `defprop` forms, their documentation comments
//! and their locations.

use vstd::prelude::*;
use vstd::string::StringSliceAdditionalSpecFns;
use crate::docs::string_views;
use crate::docstring::{ExternalDoc, ExternalDocView};
use crate::lsp::{location_views, Location, LocationView, Position, Range};
use crate::name_map::NameMap;
use crate::parse::{lisp_parse_of, parse_commonlisp};
use vstd::utf8::encode_utf8;
use crate::syntax::{kind_is, node_text, node_text_of, text_between, text_of, SyntaxNode};
use crate::text::{
    append_chars, append_str, chars_of, copy_range, count_char, count_occurrences,
    has_prefix, has_suffix, lines, lines_of, rfind, rfind_char, starts_with, ends_with,
    str_equals, string_of, trim, trim_char, trim_chars, trim_matches, trim_start_char,
    trim_start_matches, views,
};

verus! {

/// The definition keywords that are recognized.
pub open spec fn known_keyword_spec(kw: Seq<char>) -> bool {
    ||| kw == "defmfun"@
    ||| kw == "defmspec"@
    ||| kw == "defun"@
    ||| kw == "defvar"@
    ||| kw == "defmvar"@
    ||| kw == "defprop"@
}

/// The kind of thing a keyword defines.
pub open spec fn keyword_kind_spec(kw: Seq<char>) -> Seq<char> {
    if kw == "defmfun"@ || kw == "defmspec"@ || kw == "defun"@ {
        "function"@
    } else if kw == "defvar"@ || kw == "defmvar"@ {
        "variable"@
    } else if kw == "defprop"@ {
        "property"@
    } else {
        "unknown"@
    }
}

/// The keywords that define functions.
pub open spec fn is_function_keyword_spec(kw: Seq<char>) -> bool {
    kw == "defmfun"@ || kw == "defmspec"@ || kw == "defun"@
}

/// Whether `kw` is a recognized definition keyword.
pub fn known_keyword(kw: &str) -> (b: bool)
    ensures
        b == known_keyword_spec(kw@),
{
    str_equals(kw, "defmfun") || str_equals(kw, "defmspec") || str_equals(kw, "defun")
        || str_equals(kw, "defvar") || str_equals(kw, "defmvar") || str_equals(kw, "defprop")
}

/// The kind of thing `kw` defines: function, variable, property or unknown.
pub fn keyword_kind(kw: &str) -> (s: &'static str)
    ensures
        s@ == keyword_kind_spec(kw@),
{
    if str_equals(kw, "defmfun") || str_equals(kw, "defmspec") || str_equals(kw, "defun") {
        "function"
    } else if str_equals(kw, "defvar") || str_equals(kw, "defmvar") {
        "variable"
    } else if str_equals(kw, "defprop") {
        "property"
    } else {
        "unknown"
    }
}

/// Whether `kw` defines a function.
pub fn is_function_keyword(kw: &str) -> (b: bool)
    ensures
        b == is_function_keyword_spec(kw@),
{
    str_equals(kw, "defmfun") || str_equals(kw, "defmspec") || str_equals(kw, "defun")
}

/// A definition form found in a Lisp source.
pub struct LispDefView {
    pub keyword: Seq<char>,
    pub name: Seq<char>,
    pub lambda_list: Option<Seq<char>>,
    pub start_byte: int,
}

/// A definition form found in a Lisp source: its keyword, the name it
/// defines, the text of its lambda list for a function, and where it starts.
pub struct LispDef {
    pub keyword: String,
    pub name: String,
    pub lambda_list: Option<String>,
    pub start_byte: usize,
}

/// The view of an optional string.
pub open spec fn opt_view(o: Option<String>) -> Option<Seq<char>> {
    match o {
        Some(s) => Some(s@),
        None => None,
    }
}

impl View for LispDef {
    type V = LispDefView;

    open spec fn view(&self) -> LispDefView {
        LispDefView {
            keyword: self.keyword@,
            name: self.name@,
            lambda_list: opt_view(self.lambda_list),
            start_byte: self.start_byte as int,
        }
    }
}

/// The text of node `n`, or the empty text.
pub open spec fn text_or_empty(src: Seq<u8>, n: SyntaxNode) -> Seq<char> {
    match node_text_of(src, n) {
        Some(t) => t,
        None => Seq::empty(),
    }
}

/// The definition that node `n` is, if it is one.
///
/// A list `(kw name lambda-list body...)` whose first element is a known
/// keyword defines `name`; its lambda list is kept for a function keyword
/// when the list has more than four children (the parentheses included)
/// and the fourth is a list. The grammar gives `defun` forms a node of
/// their own, whose header holds the keyword, the name and the lambda list.
pub open spec fn lisp_def_of(src: Seq<u8>, n: SyntaxNode) -> Option<LispDefView> {
    let cs = n.children@;
    if n.kind@ == "list_lit"@ && cs.len() >= 3 {
        match node_text_of(src, cs[1]) {
            Some(kw) => if known_keyword_spec(kw) {
                Some(
                    LispDefView {
                        keyword: kw,
                        name: text_or_empty(src, cs[2]),
                        lambda_list: if is_function_keyword_spec(kw) && cs.len() > 4
                            && cs[3].kind@ == "list_lit"@ {
                            node_text_of(src, cs[3])
                        } else {
                            None
                        },
                        start_byte: n.start_byte as int,
                    },
                )
            } else {
                None
            },
            None => None,
        }
    } else if n.kind@ == "defun"@ && cs.len() >= 2 && cs[1].kind@ == "defun_header"@
        && cs[1].children@.len() >= 1 {
        let hs = cs[1].children@;
        match node_text_of(src, hs[0]) {
            Some(kw) => if known_keyword_spec(kw) {
                Some(
                    LispDefView {
                        keyword: kw,
                        name: if hs.len() >= 2 {
                            text_or_empty(src, hs[1])
                        } else {
                            Seq::empty()
                        },
                        lambda_list: if is_function_keyword_spec(kw) && hs.len() >= 3
                            && hs[2].kind@ == "list_lit"@ {
                            node_text_of(src, hs[2])
                        } else {
                            None
                        },
                        start_byte: n.start_byte as int,
                    },
                )
            } else {
                None
            },
            None => None,
        }
    } else {
        None
    }
}

/// The definitions in the tree rooted at `n`, in source order; the walk does
/// not enter a definition, so definitions nested in one are not listed.
pub open spec fn lisp_defs(src: Seq<u8>, n: SyntaxNode) -> Seq<LispDefView>
    decreases n,
{
    match lisp_def_of(src, n) {
        Some(d) => seq![d],
        None => lisp_defs_list(src, n.children@),
    }
}

/// The definitions in the trees `cs`, one after the other.
pub open spec fn lisp_defs_list(src: Seq<u8>, cs: Seq<SyntaxNode>) -> Seq<LispDefView>
    decreases cs,
{
    if cs.len() == 0 {
        Seq::empty()
    } else {
        lisp_defs(src, cs[0]) + lisp_defs_list(src, cs.subrange(1, cs.len() as int))
    }
}

pub proof fn lemma_lisp_defs_list_push(src: Seq<u8>, cs: Seq<SyntaxNode>, i: int)
    requires
        0 <= i < cs.len(),
    ensures
        lisp_defs_list(src, cs.subrange(0, i + 1)) == lisp_defs_list(src, cs.subrange(0, i))
            + lisp_defs(src, cs[i]),
    decreases i,
{
    let a = cs.subrange(0, i + 1);
    let b = cs.subrange(0, i);
    if i == 0 {
        assert(a.subrange(1, a.len() as int) =~= Seq::<SyntaxNode>::empty());
        assert(lisp_defs_list(src, a.subrange(1, a.len() as int)) =~= Seq::<LispDefView>::empty());
        assert(a[0] == cs[0]);
        assert(lisp_defs_list(src, a) =~= lisp_defs(src, cs[0]));
        assert(lisp_defs_list(src, b) =~= Seq::<LispDefView>::empty());
    } else {
        let t = cs.subrange(1, cs.len() as int);
        lemma_lisp_defs_list_push(src, t, i - 1);
        assert(a.subrange(1, a.len() as int) =~= t.subrange(0, i));
        assert(b.subrange(1, b.len() as int) =~= t.subrange(0, i - 1));
        assert(a[0] == cs[0] && b[0] == cs[0] && t[i - 1] == cs[i]);
        assert(lisp_defs_list(src, a) =~= lisp_defs(src, cs[0]) + lisp_defs_list(
            src,
            t.subrange(0, i),
        ));
        assert(lisp_defs_list(src, b) =~= lisp_defs(src, cs[0]) + lisp_defs_list(
            src,
            t.subrange(0, i - 1),
        ));
    }
}

/// The views of definitions.
pub open spec fn def_views(v: Seq<LispDef>) -> Seq<LispDefView> {
    v.map_values(|d: LispDef| d@)
}

/// The definition that node `n` is, if it is one.
pub fn lisp_def(src: &[u8], n: &SyntaxNode) -> (r: Option<LispDef>)
    ensures
        r matches Some(d) ==> lisp_def_of(src@, *n) == Some(d@),
        r is None ==> lisp_def_of(src@, *n) is None,
{
    let nc = n.children.len();
    if kind_is(n, "list_lit") && nc >= 3 {
        let kw = match node_text(src, &n.children[1]) {
            Some(k) => k,
            None => {
                return None;
            },
        };
        if !known_keyword(kw.as_str()) {
            return None;
        }
        let name = match node_text(src, &n.children[2]) {
            Some(t) => t,
            None => String::new(),
        };
        let lambda_list = if is_function_keyword(kw.as_str()) && nc > 4 && kind_is(
            &n.children[3],
            "list_lit",
        ) {
            node_text(src, &n.children[3])
        } else {
            None
        };
        let d = LispDef { keyword: kw, name, lambda_list, start_byte: n.start_byte };
        assert(lisp_def_of(src@, *n) == Some(d@));
        Some(d)
    } else if kind_is(n, "defun") && nc >= 2 && kind_is(&n.children[1], "defun_header")
        && n.children[1].children.len() >= 1 {
        let h = &n.children[1];
        let hc = h.children.len();
        let kw = match node_text(src, &h.children[0]) {
            Some(k) => k,
            None => {
                return None;
            },
        };
        if !known_keyword(kw.as_str()) {
            return None;
        }
        let name = if hc >= 2 {
            match node_text(src, &h.children[1]) {
                Some(t) => t,
                None => String::new(),
            }
        } else {
            String::new()
        };
        let lambda_list = if is_function_keyword(kw.as_str()) && hc >= 3 && kind_is(
            &h.children[2],
            "list_lit",
        ) {
            node_text(src, &h.children[2])
        } else {
            None
        };
        let d = LispDef { keyword: kw, name, lambda_list, start_byte: n.start_byte };
        assert(lisp_def_of(src@, *n) == Some(d@));
        Some(d)
    } else {
        None
    }
}

/// Appends the definitions in the tree rooted at `n`.
pub fn collect_lisp_def_forms(src: &[u8], n: &SyntaxNode, out: &mut Vec<LispDef>)
    ensures
        def_views(final(out)@) == def_views(old(out)@) + lisp_defs(src@, *n),
    decreases n,
{
    let ghost start = def_views(out@);
    match lisp_def(src, n) {
        Some(d) => {
            out.push(d);
            assert(def_views(out@) =~= start + lisp_defs(src@, *n));
        },
        None => {
            let mut i: usize = 0;
            while i < n.children.len()
                invariant
                    i <= n.children@.len(),
                    lisp_def_of(src@, *n) is None,
                    def_views(out@) == start + lisp_defs_list(
                        src@,
                        n.children@.subrange(0, i as int),
                    ),
                decreases n.children@.len() - i,
            {
                proof {
                    lemma_lisp_defs_list_push(src@, n.children@, i as int);
                }
                collect_lisp_def_forms(src, &n.children[i], out);
                i = i + 1;
                assert(def_views(out@) =~= start + lisp_defs_list(
                    src@,
                    n.children@.subrange(0, i as int),
                ));
            }
            assert(n.children@.subrange(0, n.children@.len() as int) =~= n.children@);
        },
    }
}

/// The definitions of a Lisp source, in source order.
pub fn lisp_def_forms(src: &[u8], root: &SyntaxNode) -> (r: Vec<LispDef>)
    ensures
        def_views(r@) == lisp_defs(src@, *root),
{
    let mut out: Vec<LispDef> = Vec::new();
    collect_lisp_def_forms(src, root, &mut out);
    assert(def_views(out@) =~= lisp_defs(src@, *root));
    out
}

// ---------------------------------------------------------------------
// Documentation comments

/// The description gathered from the lines above a definition, scanning
/// upwards: `;` comment lines are prepended (without their semicolons); a
/// line in double quotes is the whole description and ends the scan; blank
/// lines are skipped; any other line ends the scan once something was
/// found and is skipped before that.
pub open spec fn comment_scan(ls: Seq<Seq<char>>, doc: Seq<char>) -> Seq<char>
    decreases ls.len(),
{
    if ls.len() == 0 {
        doc
    } else {
        let t = trim(ls.last());
        if starts_with(t, ";"@) {
            let text = trim(trim_start_char(t, ';'));
            comment_scan(
                ls.drop_last(),
                if doc.len() == 0 {
                    text
                } else {
                    text + " "@ + doc
                },
            )
        } else if starts_with(t, "\""@) && ends_with(t, "\""@) {
            trim_char(t, '"')
        } else if t.len() == 0 {
            comment_scan(ls.drop_last(), doc)
        } else if doc.len() > 0 {
            doc
        } else {
            comment_scan(ls.drop_last(), doc)
        }
    }
}

/// The documentation written above a definition that starts at byte
/// `start` of `src`.
pub open spec fn preceding_comment(src: Seq<u8>, start: int) -> Seq<char> {
    match text_of(src, 0, start) {
        Some(before) => comment_scan(lines(before), Seq::empty()),
        None => Seq::empty(),
    }
}

/// The documentation comment written above the definition starting at byte
/// `def_start_byte` of `source`.
pub fn extract_preceding_comment(source: &str, def_start_byte: usize) -> (doc: String)
    ensures
        doc@ == preceding_comment(source.spec_bytes(), def_start_byte as int),
{
    let src = source.as_bytes();
    let before = match text_between(src, 0, def_start_byte) {
        Some(b) => b,
        None => {
            return String::new();
        },
    };
    let bc = chars_of(before.as_str());
    assert(bc@ == before@);
    let ls = lines_of(bc.as_slice());
    let ghost lv = views(ls@);
    let semi = chars_of(";");
    let quote = chars_of("\"");
    let mut doc: Vec<char> = Vec::new();
    let mut k = ls.len();
    assert(lv.subrange(0, lv.len() as int) =~= lv);
    assert(doc@ =~= Seq::<char>::empty());
    while k > 0
        invariant
            k <= ls@.len(),
            lv == views(ls@),
            lv == lines(before@),
            src@ == source.spec_bytes(),
            text_of(src@, 0, def_start_byte as int) == Some(before@),
            semi@ == ";"@,
            quote@ == "\""@,
            comment_scan(lv, Seq::empty()) == comment_scan(lv.subrange(0, k as int), doc@),
        decreases k,
    {
        let ghost sub = lv.subrange(0, k as int);
        assert(sub.drop_last() =~= lv.subrange(0, k - 1));
        assert(sub.last() == ls@[k - 1]@);
        let t = trim_chars(ls[k - 1].as_slice());
        if has_prefix(t.as_slice(), semi.as_slice()) {
            let stripped = trim_start_matches(t.as_slice(), ';');
            let text = trim_chars(stripped.as_slice());
            if doc.len() == 0 {
                doc = text;
            } else {
                let ghost old_doc = doc@;
                let mut nd = text;
                let ghost tv = nd@;
                nd.push(' ');
                let mut j: usize = 0;
                while j < doc.len()
                    invariant
                        j <= old_doc.len(),
                        doc@ == old_doc,
                        nd@ == tv.push(' ') + old_doc.subrange(0, j as int),
                    decreases old_doc.len() - j,
                {
                    nd.push(doc[j]);
                    j = j + 1;
                    assert(nd@ =~= tv.push(' ') + old_doc.subrange(0, j as int));
                }
                assert(nd@ =~= tv + " "@ + old_doc) by {
                    reveal_strlit(" ");
                    assert(old_doc.subrange(0, old_doc.len() as int) =~= old_doc);
                }
                doc = nd;
            }
        } else if has_prefix(t.as_slice(), quote.as_slice()) && has_suffix(
            t.as_slice(),
            quote.as_slice(),
        ) {
            let q = trim_matches(t.as_slice(), '"');
            assert(comment_scan(sub, doc@) == trim_char(t@, '"'));
            return string_of(q.as_slice());
        } else if t.len() == 0 {
        } else if doc.len() > 0 {
            assert(comment_scan(sub, doc@) == doc@);
            return string_of(doc.as_slice());
        }
        k = k - 1;
    }
    string_of(doc.as_slice())
}


// ---------------------------------------------------------------------
// Documentation and locations of definitions

/// The parameters inside a lambda list's parentheses.
pub open spec fn lambda_inner(l: Seq<char>) -> Seq<char> {
    if l.len() >= 2 {
        l.subrange(1, l.len() - 1)
    } else {
        Seq::empty()
    }
}

/// The signature shown for a definition: its name, followed by its
/// parameters in parentheses when it has a lambda list.
pub open spec fn lisp_signature(d: LispDefView) -> Seq<char> {
    match d.lambda_list {
        Some(l) => if l.len() > 0 {
            d.name + "("@ + lambda_inner(l) + ")"@
        } else {
            d.name
        },
        None => d.name,
    }
}

/// The documentation record of a definition: the comment above it, or else
/// its name and the kind of thing it defines.
pub open spec fn lisp_doc_view(src: Seq<u8>, d: LispDefView) -> ExternalDocView {
    let c = preceding_comment(src, d.start_byte);
    ExternalDocView {
        name: d.name,
        signature: lisp_signature(d),
        doc: if c.len() > 0 {
            c
        } else {
            d.name + " ("@ + keyword_kind_spec(d.keyword) + ")"@
        },
        params: Seq::empty(),
        return_doc: Seq::empty(),
        examples: Seq::empty(),
        source_file: Seq::empty(),
    }
}

/// The records of the definitions by name, a later definition replacing an
/// earlier one of the same name.
pub open spec fn lisp_docs_map(src: Seq<u8>, defs: Seq<LispDefView>) -> Map<
    Seq<char>,
    ExternalDocView,
>
    decreases defs.len(),
{
    if defs.len() == 0 {
        Map::empty()
    } else {
        lisp_docs_map(src, defs.drop_last()).insert(
            defs.last().name,
            lisp_doc_view(src, defs.last()),
        )
    }
}

/// The views of the records of a map.
pub open spec fn external_views(m: Map<Seq<char>, ExternalDoc>) -> Map<Seq<char>, ExternalDocView> {
    m.map_values(|d: ExternalDoc| d@)
}

/// The documentation record of one definition.
pub fn lisp_doc_record(source: &str, d: &LispDef) -> (r: ExternalDoc)
    ensures
        r@ == lisp_doc_view(source.spec_bytes(), d@),
{
    let comment = extract_preceding_comment(source, d.start_byte);
    let signature = match &d.lambda_list {
        Some(l) => {
            let lc = chars_of(l.as_str());
            if lc.len() > 0 {
                let mut sig = d.name.clone();
                append_str(&mut sig, "(");
                if lc.len() >= 2 {
                    let inner = copy_range(lc.as_slice(), 1, lc.len() - 1);
                    append_chars(&mut sig, inner.as_slice());
                } else {
                    assert(lambda_inner(lc@) =~= Seq::<char>::empty());
                }
                append_str(&mut sig, ")");
                assert(sig@ =~= d.name@ + "("@ + lambda_inner(lc@) + ")"@);
                sig
            } else {
                d.name.clone()
            }
        },
        None => d.name.clone(),
    };
    let cc = chars_of(comment.as_str());
    let doc = if cc.len() > 0 {
        comment
    } else {
        let mut t = d.name.clone();
        append_str(&mut t, " (");
        append_str(&mut t, keyword_kind(d.keyword.as_str()));
        append_str(&mut t, ")");
        assert(t@ =~= d.name@ + " ("@ + keyword_kind_spec(d.keyword@) + ")"@);
        t
    };
    let r = ExternalDoc {
        name: d.name.clone(),
        signature,
        doc,
        params: Vec::new(),
        return_doc: String::new(),
        examples: Vec::new(),
        source_file: String::new(),
    };
    assert(string_views(r.params@) =~= Seq::empty());
    assert(string_views(r.examples@) =~= Seq::empty());
    assert(r@ =~= lisp_doc_view(source.spec_bytes(), d@));
    r
}

/// The documentation records of the definitions in the tree of a Lisp
/// source, by name.
pub fn lisp_docs_from_tree(source: &str, root: &SyntaxNode) -> (r: NameMap<ExternalDoc>)
    ensures
        external_views(r.map()) == lisp_docs_map(source.spec_bytes(), lisp_defs(source.spec_bytes(), *root)),
{
    let src = source.as_bytes();
    let defs = lisp_def_forms(src, root);
    let ghost dv = def_views(defs@);
    let mut r: NameMap<ExternalDoc> = NameMap::new();
    assert(external_views(r.map()) =~= lisp_docs_map(src@, dv.subrange(0, 0)));
    let mut i: usize = 0;
    while i < defs.len()
        invariant
            i <= defs@.len(),
            src@ == source.spec_bytes(),
            dv == def_views(defs@),
            external_views(r.map()) == lisp_docs_map(src@, dv.subrange(0, i as int)),
        decreases defs@.len() - i,
    {
        let rec = lisp_doc_record(source, &defs[i]);
        let ghost before = r.map();
        let ghost rv = rec@;
        r.insert(defs[i].name.clone(), rec);
        let ghost sub = dv.subrange(0, i + 1);
        assert(sub.drop_last() =~= dv.subrange(0, i as int));
        assert(sub.last() == defs@[i as int]@);
        assert(external_views(r.map()) =~= external_views(before).insert(defs@[i as int].name@, rv));
        i = i + 1;
    }
    assert(dv.subrange(0, dv.len() as int) =~= dv);
    r
}

/// Whether `m` holds the documentation records of the definitions of the
/// Common Lisp `source`: those of its syntax tree.
pub open spec fn lisp_docs_result(m: Map<Seq<char>, ExternalDocView>, source: Seq<char>) -> bool {
    exists|t: SyntaxNode|
        lisp_parse_of(t, source) && m == lisp_docs_map(encode_utf8(source), lisp_defs(encode_utf8(source), t))
}

/// The documentation records of the definitions in a Common Lisp source, by
/// name: for each definition the comment above it, or its name and kind.
/// The source is parsed with the Common Lisp grammar.
pub fn extract_lisp_docs(source: &str) -> (r: NameMap<ExternalDoc>)
    ensures
        lisp_docs_result(external_views(r.map()), source@),
{
    match parse_commonlisp(source) {
        Some(tree) => lisp_docs_from_tree(source, &tree),
        None => NameMap::new(),
    }
}

/// Where a definition starting at byte `start` is: the line it starts on
/// and the number of characters before it on that line, one character wide.
pub open spec fn def_location(src: Seq<u8>, uri: Seq<char>, start: int) -> LocationView {
    let before = match text_of(src, 0, start) {
        Some(b) => b,
        None => Seq::empty(),
    };
    let line = count_char(before, '\n') as u32;
    let col = match rfind(before, '\n') {
        Some(k) => before.len() - (k + 1),
        None => before.len() as int,
    } as u32;
    LocationView {
        uri,
        range: Range {
            start: Position { line, character: col },
            end: Position { line, character: col.wrapping_add(1) },
        },
    }
}

/// The locations of the definitions by name, a later definition replacing
/// an earlier one of the same name.
pub open spec fn lisp_locations_map(src: Seq<u8>, uri: Seq<char>, defs: Seq<LispDefView>) -> Map<
    Seq<char>,
    LocationView,
>
    decreases defs.len(),
{
    if defs.len() == 0 {
        Map::empty()
    } else {
        lisp_locations_map(src, uri, defs.drop_last()).insert(
            defs.last().name,
            def_location(src, uri, defs.last().start_byte),
        )
    }
}

/// Where a definition starting at byte `start` of `source` is.
pub fn definition_location(source: &str, uri: &str, start: usize) -> (l: Location)
    ensures
        l@ == def_location(source.spec_bytes(), uri@, start as int),
{
    let src = source.as_bytes();
    let before = match text_between(src, 0, start) {
        Some(b) => chars_of(b.as_str()),
        None => Vec::new(),
    };
    let line = #[verifier::truncate] (count_occurrences(before.as_slice(), '\n') as u32);
    let col = match rfind_char(before.as_slice(), '\n') {
        Some(k) => #[verifier::truncate] ((before.len() - (k + 1)) as u32),
        None => #[verifier::truncate] (before.len() as u32),
    };
    let l = Location {
        uri: String::from_str(uri),
        range: Range {
            start: Position { line, character: col },
            end: Position { line, character: col.wrapping_add(1) },
        },
    };
    assert(l@ == def_location(src@, uri@, start as int));
    l
}

/// The locations of the definitions in the tree of a Lisp source, by name.
pub fn lisp_locations_from_tree(source: &str, uri: &str, root: &SyntaxNode) -> (r: NameMap<Location>)
    ensures
        location_views(r.map()) == lisp_locations_map(
            source.spec_bytes(),
            uri@,
            lisp_defs(source.spec_bytes(), *root),
        ),
{
    let src = source.as_bytes();
    let defs = lisp_def_forms(src, root);
    let ghost dv = def_views(defs@);
    let mut r: NameMap<Location> = NameMap::new();
    assert(location_views(r.map()) =~= lisp_locations_map(src@, uri@, dv.subrange(0, 0)));
    let mut i: usize = 0;
    while i < defs.len()
        invariant
            i <= defs@.len(),
            src@ == source.spec_bytes(),
            dv == def_views(defs@),
            location_views(r.map()) == lisp_locations_map(src@, uri@, dv.subrange(0, i as int)),
        decreases defs@.len() - i,
    {
        let loc = definition_location(source, uri, defs[i].start_byte);
        let ghost before = r.map();
        let ghost lv = loc@;
        r.insert(defs[i].name.clone(), loc);
        let ghost sub = dv.subrange(0, i + 1);
        assert(sub.drop_last() =~= dv.subrange(0, i as int));
        assert(sub.last() == defs@[i as int]@);
        assert(location_views(r.map()) =~= location_views(before).insert(defs@[i as int].name@, lv));
        i = i + 1;
    }
    assert(dv.subrange(0, dv.len() as int) =~= dv);
    r
}

/// Whether `m` holds the locations of the definitions of the Common Lisp
/// `source` in document `uri`: those of its syntax tree.
pub open spec fn lisp_locations_result(m: Map<Seq<char>, LocationView>, uri: Seq<char>, source: Seq<char>) -> bool {
    exists|t: SyntaxNode|
        lisp_parse_of(t, source) && m == lisp_locations_map(
            encode_utf8(source),
            uri,
            lisp_defs(encode_utf8(source), t),
        )
}

/// The locations of the definitions in a Common Lisp source, by name, in the
/// document `uri`.
pub fn collect_lisp_defs(source: &str, uri: &str) -> (r: NameMap<Location>)
    ensures
        lisp_locations_result(location_views(r.map()), uri@, source@),
{
    match parse_commonlisp(source) {
        Some(tree) => lisp_locations_from_tree(source, uri, &tree),
        None => NameMap::new(),
    }
}

} // verus!
