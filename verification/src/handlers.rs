//! The answers to editor requests: the byte at a position, hover text,
//! completion items, semantic tokens, document symbols, go-to-definition
//! targets and incremental edits.

use vstd::prelude::*;
use vstd::string::StringSliceAdditionalSpecFns;
use vstd::utf8::encode_utf8;
use crate::db::{lookup, user_functions, Database, DatabaseView};
use crate::definitions::{deepest_at, deepest_node_at, node_range, range_of};
use crate::docs::{parse_signature_for_snippet, snippet_text, string_views, DocEntry, DocEntryView};
use crate::lsp::{Position, Range};
use crate::syntax::{kind_is, node_text, node_text_of, SyntaxNode};
use crate::parse::{captures_of, query_in};
use crate::text::{append_str, chars_of, contains_char, copy_range, has_char, string_of, trim_char, trim_matches};
use crate::lsp::{file_url, Location, LocationView};

verus! {

/// The number of bytes that encode the characters `s`.
pub open spec fn byte_len(s: Seq<char>) -> int {
    encode_utf8(s).len() as int
}

/// The number of bytes that encode the character `c`.
pub open spec fn char_width(c: char) -> int {
    if (c as u32) <= 0x7F {
        1
    } else if (c as u32) <= 0x7FF {
        2
    } else if (c as u32) <= 0xFFFF {
        3
    } else {
        4
    }
}

pub proof fn lemma_encode_append(a: Seq<char>, b: Seq<char>)
    ensures
        encode_utf8(a + b) == encode_utf8(a) + encode_utf8(b),
    decreases a.len(),
{
    if a.len() > 0 {
        lemma_encode_append(a.drop_first(), b);
        assert((a + b).drop_first() =~= a.drop_first() + b);
        assert((a + b)[0] == a[0]);
        assert(encode_utf8(a + b) =~= encode_utf8(a) + encode_utf8(b));
    } else {
        assert(a + b =~= b);
        assert(encode_utf8(a) =~= Seq::<u8>::empty());
    }
}

pub proof fn lemma_byte_len_push(s: Seq<char>, c: char)
    ensures
        byte_len(s.push(c)) == byte_len(s) + char_width(c),
{
    lemma_encode_append(s, seq![c]);
    assert(s.push(c) =~= s + seq![c]);
    assert(seq![c].drop_first() =~= Seq::<char>::empty());
    let e: Seq<char> = Seq::empty();
    assert(seq![c][0] == c);
    assert(encode_utf8(e).len() == 0);
    assert(encode_utf8(seq![c]) == vstd::utf8::encode_scalar(c as u32) + encode_utf8(e));
    assert(encode_utf8(seq![c]) =~= vstd::utf8::encode_scalar(c as u32));
    vstd::utf8::char_is_scalar(c);
}

pub proof fn lemma_byte_len_prefix(s: Seq<char>, i: int)
    requires
        0 <= i <= s.len(),
    ensures
        byte_len(s.subrange(0, i)) <= byte_len(s),
{
    lemma_encode_append(s.subrange(0, i), s.subrange(i, s.len() as int));
    assert(s.subrange(0, i) + s.subrange(i, s.len() as int) =~= s);
}

/// The number of bytes that encode `c`.
pub fn utf8_width(c: char) -> (w: usize)
    ensures
        w == char_width(c),
{
    let u = c as u32;
    if u <= 0x7F {
        1
    } else if u <= 0x7FF {
        2
    } else if u <= 0xFFFF {
        3
    } else {
        4
    }
}

/// The index of the first character on line `target`, scanning from index
/// `i`, which is on line `line`; `None` when the text ends first.
pub open spec fn line_start_from(s: Seq<char>, i: int, line: int, target: int) -> Option<int>
    decreases s.len() - i,
{
    if i < 0 || i >= s.len() {
        None
    } else if line == target {
        Some(i)
    } else {
        line_start_from(
            s,
            i + 1,
            if s[i] == '\n' {
                line + 1
            } else {
                line
            },
            target,
        )
    }
}

/// The byte that a position names in a text: the start of its line plus
/// its character offset, counted in bytes, and no further than the end of
/// the text; `None` when no character starts the line.
pub open spec fn position_byte(s: Seq<char>, pos: Position) -> Option<int> {
    match line_start_from(s, 0, 0, pos.line as int) {
        Some(i) => {
            let b = byte_len(s.subrange(0, i)) + pos.character;
            Some(
                if b < byte_len(s) {
                    b
                } else {
                    byte_len(s)
                },
            )
        },
        None => None,
    }
}

/// The byte of `source` that position `pos` names.
pub fn position_to_byte(source: &str, pos: Position) -> (r: Option<usize>)
    ensures
        r matches Some(b) ==> position_byte(source@, pos) == Some(b as int),
        r is None ==> position_byte(source@, pos) is None,
{
    let chars = chars_of(source);
    let ghost s = source@;
    let total = source.as_bytes().len();
    let mut line: usize = 0;
    let mut byte: usize = 0;
    let mut i: usize = 0;
    proof {
        lemma_byte_len_prefix(s, 0);
    }
    assert(s.subrange(0, 0) =~= Seq::<char>::empty());
    while i < chars.len()
        invariant
            chars@ == s,
            s == source@,
            total == byte_len(s),
            i <= s.len(),
            line <= i,
            byte == byte_len(s.subrange(0, i as int)),
            byte <= total,
            line_start_from(s, 0, 0, pos.line as int) == line_start_from(
                s,
                i as int,
                line as int,
                pos.line as int,
            ),
        decreases s.len() - i,
    {
        if line == pos.line as usize {
            let b = if (pos.character as usize) < total - byte {
                byte + pos.character as usize
            } else {
                total
            };
            return Some(b);
        }
        let c = chars[i];
        if c == '\n' {
            line = line + 1;
        }
        proof {
            lemma_byte_len_push(s.subrange(0, i as int), c);
            assert(s.subrange(0, i as int).push(c) =~= s.subrange(0, i + 1));
            lemma_byte_len_prefix(s, i + 1);
        }
        byte = byte + utf8_width(c);
        i = i + 1;
    }
    None
}

// ---------------------------------------------------------------------
// Hover

/// Each item between `prefix` and `suffix`, one after the other.
pub open spec fn items_text(prefix: Seq<char>, items: Seq<Seq<char>>, suffix: Seq<char>) -> Seq<char>
    decreases items.len(),
{
    if items.len() == 0 {
        Seq::empty()
    } else {
        items_text(prefix, items.drop_last(), suffix) + prefix + items.last() + suffix
    }
}

/// Appends each item between `prefix` and `suffix`.
fn append_items(md: &mut String, prefix: &str, items: &Vec<String>, suffix: &str)
    ensures
        final(md)@ == old(md)@ + items_text(prefix@, string_views(items@), suffix@),
{
    let ghost start = md@;
    let ghost iv = string_views(items@);
    let mut i: usize = 0;
    assert(iv.subrange(0, 0) =~= Seq::<Seq<char>>::empty());
    assert(md@ =~= start + items_text(prefix@, iv.subrange(0, 0), suffix@));
    while i < items.len()
        invariant
            i <= items@.len(),
            iv == string_views(items@),
            start == old(md)@,
            md@ == start + items_text(prefix@, iv.subrange(0, i as int), suffix@),
        decreases items@.len() - i,
    {
        append_str(md, prefix);
        append_str(md, items[i].as_str());
        append_str(md, suffix);
        let ghost sub = iv.subrange(0, i + 1);
        assert(sub.drop_last() =~= iv.subrange(0, i as int));
        assert(sub.last() == items@[i as int]@);
        assert(md@ =~= start + items_text(prefix@, sub, suffix@));
        i = i + 1;
    }
    assert(iv.subrange(0, iv.len() as int) =~= iv);
}

/// The hover text for `name` documented by entry `e`: the name and
/// category, the signature, the description, then the parameters, the
/// return value (unless empty or the name itself) and the examples, each
/// part only when there is something to show.
pub open spec fn hover_markdown(name: Seq<char>, e: DocEntryView) -> Seq<char> {
    "**"@ + name + "**  \u{b7}  "@ + e.category + "\n\n"@ + "`"@ + e.signature + "`\n\n"@ + e.doc + "\n"@
        + (if e.params.len() > 0 {
        "\n---\n**Parameters:**\n"@ + items_text("- "@, e.params, "\n"@)
    } else {
        Seq::empty()
    }) + (if e.return_doc.len() > 0 && e.return_doc != name {
        "\n**Returns:** "@ + e.return_doc + "\n"@
    } else {
        Seq::empty()
    }) + (if e.examples.len() > 0 {
        "\n**Examples:**\n"@ + items_text("```maxima\n"@, e.examples, "\n```\n"@)
    } else {
        Seq::empty()
    })
}

/// The hover text for an undocumented name.
pub open spec fn variable_markdown(name: Seq<char>) -> Seq<char> {
    "**"@ + name + "**  \u{b7}  _variable_"@
}

/// What hovering shows: markdown text, over a range of the document.
pub struct HoverInfo {
    pub markdown: String,
    pub range: Range,
}

/// The hover answer for position `pos` of a document with text `source`
/// and tree `tree`: the identifier there, with its documentation (or as a
/// variable), over the identifier's range.
pub open spec fn hover_answer(
    db: DatabaseView,
    pos: Position,
    uri: Seq<char>,
    tree: SyntaxNode,
    source: Seq<char>,
) -> Option<(Seq<char>, Range)> {
    match position_byte(source, pos) {
        None => None,
        Some(b) => {
            let n = deepest_at(tree, b);
            if n.kind@ != "identifier"@ {
                None
            } else {
                match node_text_of(encode_utf8(source), n) {
                    None => None,
                    Some(name) => Some(
                        (
                            match lookup(db, name, uri) {
                                Some(e) => hover_markdown(name, e),
                                None => variable_markdown(name),
                            },
                            node_range(n),
                        ),
                    ),
                }
            }
        },
    }
}

/// The markdown that documents `name` by entry `e`.
fn entry_markdown(name: &str, e: &DocEntry) -> (md: String)
    ensures
        md@ == hover_markdown(name@, e@),
{
    let mut md = String::new();
    append_str(&mut md, "**");
    append_str(&mut md, name);
    append_str(&mut md, "**  \u{b7}  ");
    append_str(&mut md, e.category.as_str());
    append_str(&mut md, "\n\n");
    append_str(&mut md, "`");
    append_str(&mut md, e.signature.as_str());
    append_str(&mut md, "`\n\n");
    append_str(&mut md, e.doc.as_str());
    append_str(&mut md, "\n");
    let ghost a = md@;
    if e.params.len() > 0 {
        append_str(&mut md, "\n---\n**Parameters:**\n");
        append_items(&mut md, "- ", &e.params, "\n");
    }
    let ghost b = md@;
    let ret = e.return_doc.as_str();
    if !ret.is_empty() && !crate::text::str_equals(ret, name) {
        append_str(&mut md, "\n**Returns:** ");
        append_str(&mut md, ret);
        append_str(&mut md, "\n");
    }
    let ghost c = md@;
    if e.examples.len() > 0 {
        append_str(&mut md, "\n**Examples:**\n");
        append_items(&mut md, "```maxima\n", &e.examples, "\n```\n");
    }
    assert(md@ =~= hover_markdown(name@, e@));
    md
}

/// What hovering at `pos` shows, for document `uri` with text `source` and
/// tree `tree`.
pub fn hover(db: &Database, pos: Position, uri: &str, tree: &SyntaxNode, source: &str) -> (r: Option<
    HoverInfo,
>)
    ensures
        r matches Some(h) ==> hover_answer(db@, pos, uri@, *tree, source@) == Some((h.markdown@, h.range)),
        r is None ==> hover_answer(db@, pos, uri@, *tree, source@) is None,
{
    let byte = match position_to_byte(source, pos) {
        Some(b) => b,
        None => {
            return None;
        },
    };
    let node = match deepest_node_at(tree, byte) {
        Some(n) => n,
        None => {
            return None;
        },
    };
    if !kind_is(node, "identifier") {
        return None;
    }
    let name = match node_text(source.as_bytes(), node) {
        Some(t) => t,
        None => {
            return None;
        },
    };
    let range = range_of(node);
    let markdown = match db.lookup_doc(name.as_str(), uri) {
        Some(entry) => entry_markdown(name.as_str(), &entry),
        None => {
            let mut md = String::new();
            append_str(&mut md, "**");
            append_str(&mut md, name.as_str());
            append_str(&mut md, "**  \u{b7}  _variable_");
            md
        },
    };
    Some(HoverInfo { markdown, range })
}

// ---------------------------------------------------------------------
// Completion

/// The kind of a completion item.
#[derive(Clone, Copy, Debug, PartialEq, Eq, Structural)]
pub enum CompletionKind {
    Function,
    Constant,
    Keyword,
}

/// What a completion item says.
pub struct CompletionView {
    pub label: Seq<char>,
    pub kind: CompletionKind,
    pub detail: Option<Seq<char>>,
    pub documentation: Option<Seq<char>>,
    pub insert_text: Option<Seq<char>>,
    pub snippet: bool,
}

/// A completion item: its label, kind, detail and markdown documentation,
/// and the text it inserts (snippet text when `snippet` is set).
pub struct CompletionEntry {
    pub label: String,
    pub kind: CompletionKind,
    pub detail: Option<String>,
    pub documentation: Option<String>,
    pub insert_text: Option<String>,
    pub snippet: bool,
}

/// The view of an optional string.
pub open spec fn opt_text(o: Option<String>) -> Option<Seq<char>> {
    match o {
        Some(s) => Some(s@),
        None => None,
    }
}

impl View for CompletionEntry {
    type V = CompletionView;

    open spec fn view(&self) -> CompletionView {
        CompletionView {
            label: self.label@,
            kind: self.kind,
            detail: opt_text(self.detail),
            documentation: opt_text(self.documentation),
            insert_text: opt_text(self.insert_text),
            snippet: self.snippet,
        }
    }
}

/// The views of completion items.
pub open spec fn completion_views(v: Seq<CompletionEntry>) -> Seq<CompletionView> {
    v.map_values(|c: CompletionEntry| c@)
}

/// The documentation of a built-in function in completion: its signature,
/// description, parameters and return value.
pub open spec fn function_markdown(e: DocEntryView) -> Seq<char> {
    "**"@ + e.signature + "**\n\n"@ + e.doc + (if e.params.len() > 0 {
        "\n\n**Parameters:**\n"@ + items_text("- "@, e.params, "\n"@)
    } else {
        Seq::empty()
    }) + (if e.return_doc.len() > 0 {
        "\n**Returns:** "@ + e.return_doc + "\n"@
    } else {
        Seq::empty()
    })
}

/// The completion item of a built-in function.
pub open spec fn builtin_item(name: Seq<char>, e: DocEntryView) -> CompletionView {
    CompletionView {
        label: name,
        kind: CompletionKind::Function,
        detail: Some(e.category),
        documentation: Some(function_markdown(e)),
        insert_text: Some(snippet_text(e.signature, name)),
        snippet: true,
    }
}

/// The completion item of a user function.
pub open spec fn user_item(name: Seq<char>, e: DocEntryView) -> CompletionView {
    CompletionView {
        label: name,
        kind: CompletionKind::Function,
        detail: Some("user function"@),
        documentation: Some(e.doc),
        insert_text: Some(snippet_text(e.signature, name)),
        snippet: true,
    }
}

/// The completion item of a built-in constant.
pub open spec fn constant_item(name: Seq<char>, e: DocEntryView) -> CompletionView {
    CompletionView {
        label: name,
        kind: CompletionKind::Constant,
        detail: Some(e.category),
        documentation: Some("**"@ + e.signature + "**\n\n"@ + e.doc),
        insert_text: None,
        snippet: false,
    }
}

/// The completion item of a keyword.
pub open spec fn keyword_item(k: Seq<char>) -> CompletionView {
    CompletionView {
        label: k,
        kind: CompletionKind::Keyword,
        detail: None,
        documentation: None,
        insert_text: None,
        snippet: false,
    }
}

/// The completion items for document `uri`: the built-in functions, the
/// user functions, the built-in constants and the keywords, in that order.
pub open spec fn completion_items(db: DatabaseView, uri: Seq<char>) -> Seq<CompletionView> {
    db.builtin_function_names.map_values(|k: Seq<char>| builtin_item(k, db.builtin_functions[k]))
        + user_functions(db, uri).map_values(
        |p: (Seq<char>, DocEntryView)| user_item(p.0, p.1),
    ) + db.builtin_constant_names.map_values(
        |k: Seq<char>| constant_item(k, db.builtin_constants[k]),
    ) + db.keywords.map_values(|k: Seq<char>| keyword_item(k))
}

/// The documentation of built-in function entry `e` in completion.
fn function_doc(e: &DocEntry) -> (md: String)
    ensures
        md@ == function_markdown(e@),
{
    let mut md = String::new();
    append_str(&mut md, "**");
    append_str(&mut md, e.signature.as_str());
    append_str(&mut md, "**\n\n");
    append_str(&mut md, e.doc.as_str());
    if e.params.len() > 0 {
        append_str(&mut md, "\n\n**Parameters:**\n");
        append_items(&mut md, "- ", &e.params, "\n");
    }
    if !e.return_doc.as_str().is_empty() {
        append_str(&mut md, "\n**Returns:** ");
        append_str(&mut md, e.return_doc.as_str());
        append_str(&mut md, "\n");
    }
    assert(md@ =~= function_markdown(e@));
    md
}

/// The completion items offered in document `uri`; `None` when there are
/// none, which never happens, as the built-in keywords are always offered.
pub fn completion(db: &Database, uri: &str) -> (r: Option<Vec<CompletionEntry>>)
    ensures
        r matches Some(v) ==> completion_views(v@) == completion_items(db@, uri@) && v@.len() > 0,
        r is None ==> completion_items(db@, uri@).len() == 0,
        r is Some,
{
    proof {
        use_type_invariant(db);
        assert(db@.keywords.len() > 0);
        assert(completion_items(db@, uri@).len() >= db@.keywords.map_values(|k: Seq<char>| keyword_item(k)).len());
    }
    let ghost items = completion_items(db@, uri@);
    let ghost fnames = db@.builtin_function_names;
    let ghost part1 = fnames.map_values(|k: Seq<char>| builtin_item(k, db@.builtin_functions[k]));
    let mut out: Vec<CompletionEntry> = Vec::new();
    let builtins = db.builtins();
    let functions = &builtins.functions;
    let n = functions.len();
    let mut i: usize = 0;
    assert(completion_views(out@) =~= part1.subrange(0, 0));
    while i < n
        invariant
            i <= n,
            n == fnames.len(),
            functions == &builtins.functions,
            fnames == db@.builtin_function_names,
            fnames == functions.names(),
            db@.builtin_functions == crate::docs::entry_views(functions.map()),
            part1 == fnames.map_values(|k: Seq<char>| builtin_item(k, db@.builtin_functions[k])),
            completion_views(out@) == part1.subrange(0, i as int),
        decreases n - i,
    {
        let name = functions.name_at(i);
        let entry = functions.value_at(i);
        let item = CompletionEntry {
            label: name.clone(),
            kind: CompletionKind::Function,
            detail: Some(entry.category.clone()),
            documentation: Some(function_doc(entry)),
            insert_text: Some(entry.snippet(name.as_str())),
            snippet: true,
        };
        assert(fnames[i as int] == name@);
        assert(db@.builtin_functions[name@] == entry@);
        assert(item@ == builtin_item(name@, entry@));
        let ghost before = completion_views(out@);
        let ghost iv = item@;
        out.push(item);
        assert(completion_views(out@) =~= before.push(iv));
        assert(part1[i as int] == iv);
        assert(completion_views(out@) =~= part1.subrange(0, i + 1));
        i = i + 1;
    }
    assert(part1.subrange(0, part1.len() as int) =~= part1);
    let users = db.all_user_functions(uri);
    let ghost uv = crate::db::pair_views(users@);
    let ghost part2 = uv.map_values(|p: (Seq<char>, DocEntryView)| user_item(p.0, p.1));
    let ghost base1 = completion_views(out@);
    let mut j: usize = 0;
    assert(completion_views(out@) =~= base1 + part2.subrange(0, 0));
    while j < users.len()
        invariant
            j <= users@.len(),
            uv == crate::db::pair_views(users@),
            part2 == uv.map_values(|p: (Seq<char>, DocEntryView)| user_item(p.0, p.1)),
            completion_views(out@) == base1 + part2.subrange(0, j as int),
        decreases users@.len() - j,
    {
        let name = &users[j].0;
        let entry = &users[j].1;
        let item = CompletionEntry {
            label: name.clone(),
            kind: CompletionKind::Function,
            detail: Some(String::from_str("user function")),
            documentation: Some(entry.doc.clone()),
            insert_text: Some(parse_signature_for_snippet(entry.signature.as_str(), name.as_str())),
            snippet: true,
        };
        assert(item@ == user_item(uv[j as int].0, uv[j as int].1));
        let ghost before = completion_views(out@);
        let ghost iv = item@;
        out.push(item);
        assert(completion_views(out@) =~= before.push(iv));
        assert(part2[j as int] == iv);
        assert(completion_views(out@) =~= base1 + part2.subrange(0, j + 1));
        j = j + 1;
    }
    assert(part2.subrange(0, part2.len() as int) =~= part2);
    let ghost cnames = db@.builtin_constant_names;
    let ghost part3 = cnames.map_values(|k: Seq<char>| constant_item(k, db@.builtin_constants[k]));
    let ghost base2 = completion_views(out@);
    let constants = &builtins.constants;
    let m = constants.len();
    let mut k: usize = 0;
    assert(completion_views(out@) =~= base2 + part3.subrange(0, 0));
    while k < m
        invariant
            k <= m,
            m == cnames.len(),
            constants == &builtins.constants,
            cnames == db@.builtin_constant_names,
            cnames == constants.names(),
            db@.builtin_constants == crate::docs::entry_views(constants.map()),
            part3 == cnames.map_values(|k: Seq<char>| constant_item(k, db@.builtin_constants[k])),
            completion_views(out@) == base2 + part3.subrange(0, k as int),
        decreases m - k,
    {
        let name = constants.name_at(k);
        let entry = constants.value_at(k);
        let mut doc = String::new();
        append_str(&mut doc, "**");
        append_str(&mut doc, entry.signature.as_str());
        append_str(&mut doc, "**\n\n");
        append_str(&mut doc, entry.doc.as_str());
        let item = CompletionEntry {
            label: name.clone(),
            kind: CompletionKind::Constant,
            detail: Some(entry.category.clone()),
            documentation: Some(doc),
            insert_text: None,
            snippet: false,
        };
        assert(cnames[k as int] == name@);
        assert(db@.builtin_constants[name@] == entry@);
        assert(item@ =~= constant_item(name@, entry@));
        let ghost before = completion_views(out@);
        let ghost iv = item@;
        out.push(item);
        assert(completion_views(out@) =~= before.push(iv));
        assert(part3[k as int] == iv);
        assert(completion_views(out@) =~= base2 + part3.subrange(0, k + 1));
        k = k + 1;
    }
    assert(part3.subrange(0, part3.len() as int) =~= part3);
    let ghost kws = db@.keywords;
    let ghost part4 = kws.map_values(|k: Seq<char>| keyword_item(k));
    let ghost base3 = completion_views(out@);
    let keywords = &builtins.keywords;
    let mut q: usize = 0;
    assert(completion_views(out@) =~= base3 + part4.subrange(0, 0));
    while q < keywords.len()
        invariant
            q <= keywords@.len(),
            keywords == &builtins.keywords,
            kws == db@.keywords,
            kws == crate::docs::str_views(keywords@),
            part4 == kws.map_values(|k: Seq<char>| keyword_item(k)),
            completion_views(out@) == base3 + part4.subrange(0, q as int),
        decreases keywords@.len() - q,
    {
        let item = CompletionEntry {
            label: String::from_str(keywords[q]),
            kind: CompletionKind::Keyword,
            detail: None,
            documentation: None,
            insert_text: None,
            snippet: false,
        };
        assert(item@ == keyword_item(kws[q as int]));
        let ghost before = completion_views(out@);
        let ghost iv = item@;
        out.push(item);
        assert(completion_views(out@) =~= before.push(iv));
        assert(part4[q as int] == iv);
        assert(completion_views(out@) =~= base3 + part4.subrange(0, q + 1));
        q = q + 1;
    }
    assert(part4.subrange(0, part4.len() as int) =~= part4);
    assert(completion_views(out@) =~= items);
    if out.len() == 0 {
        None
    } else {
        Some(out)
    }
}

// ---------------------------------------------------------------------
// Semantic tokens

/// The names of the token types, by index.
pub open spec fn legend_types() -> Seq<Seq<char>> {
    seq![
        "comment"@,
        "string"@,
        "number"@,
        "keyword"@,
        "operator"@,
        "function"@,
        "variable"@,
        "parameter"@,
    ]
}

/// The names of the token types and modifiers that tokens index.
pub struct Legend {
    pub token_types: Vec<String>,
    pub token_modifiers: Vec<String>,
}

/// The token types and modifiers of the semantic tokens.
pub fn legend() -> (l: Legend)
    ensures
        string_views(l.token_types@) == legend_types(),
        string_views(l.token_modifiers@) == seq!["readonly"@],
{
    let token_types = vec![
        String::from_str("comment"),
        String::from_str("string"),
        String::from_str("number"),
        String::from_str("keyword"),
        String::from_str("operator"),
        String::from_str("function"),
        String::from_str("variable"),
        String::from_str("parameter"),
    ];
    let token_modifiers = vec![String::from_str("readonly")];
    assert(string_views(token_types@) =~= legend_types());
    assert(string_views(token_modifiers@) =~= seq!["readonly"@]);
    Legend { token_types, token_modifiers }
}

/// The token type and modifiers of a highlight capture name.
pub open spec fn capture_type(name: Seq<char>) -> Option<(u32, u32)> {
    if name == "comment"@ {
        Some((0, 0))
    } else if name == "string"@ {
        Some((1, 0))
    } else if name == "number"@ {
        Some((2, 0))
    } else if name == "constant.builtin"@ {
        Some((2, 1))
    } else if name == "keyword"@ {
        Some((3, 0))
    } else if name == "operator"@ {
        Some((4, 0))
    } else if name == "function"@ {
        Some((5, 0))
    } else if name == "variable.parameter"@ {
        Some((7, 0))
    } else if name == "variable"@ {
        Some((6, 0))
    } else if name == "punctuation.bracket"@ {
        Some((4, 0))
    } else if name == "punctuation.delimiter"@ {
        Some((4, 0))
    } else {
        None
    }
}

/// The token type and modifiers of the capture `name`.
pub fn capture_to_ttype(name: &str) -> (r: Option<(u32, u32)>)
    ensures
        r == capture_type(name@),
{
    if crate::text::str_equals(name, "comment") {
        Some((0, 0))
    } else if crate::text::str_equals(name, "string") {
        Some((1, 0))
    } else if crate::text::str_equals(name, "number") {
        Some((2, 0))
    } else if crate::text::str_equals(name, "constant.builtin") {
        Some((2, 1))
    } else if crate::text::str_equals(name, "keyword") {
        Some((3, 0))
    } else if crate::text::str_equals(name, "operator") {
        Some((4, 0))
    } else if crate::text::str_equals(name, "function") {
        Some((5, 0))
    } else if crate::text::str_equals(name, "variable.parameter") {
        Some((7, 0))
    } else if crate::text::str_equals(name, "variable") {
        Some((6, 0))
    } else if crate::text::str_equals(name, "punctuation.bracket") {
        Some((4, 0))
    } else if crate::text::str_equals(name, "punctuation.delimiter") {
        Some((4, 0))
    } else {
        None
    }
}

/// A token as the protocol sends it: its line and start relative to the
/// token before it (the start relative only on the same line), its length,
/// type and modifiers.
#[derive(Clone, Copy, Debug, PartialEq, Eq, Structural)]
pub struct SemanticToken {
    pub delta_line: u32,
    pub delta_start: u32,
    pub length: u32,
    pub token_type: u32,
    pub token_modifiers_bitset: u32,
}

/// A token at its absolute line and start.
#[derive(Clone, Copy, Debug, PartialEq, Eq, Structural)]
pub struct AbsoluteToken {
    pub line: u32,
    pub start: u32,
    pub length: u32,
    pub token_type: u32,
    pub modifiers: u32,
}

/// The sequences `ms`, one after the other.
pub open spec fn flat<A>(ms: Seq<Seq<A>>) -> Seq<A>
    decreases ms.len(),
{
    if ms.len() == 0 {
        Seq::empty()
    } else {
        flat(ms.drop_last()) + ms.last()
    }
}

/// The captures of a list of matches, in order.
pub open spec fn all_captures(ms: Seq<Vec<(String, SyntaxNode)>>) -> Seq<(String, SyntaxNode)> {
    flat(ms.map_values(|m: Vec<(String, SyntaxNode)>| m@))
}

/// Where a captured node puts its token: its start row and column and its
/// length in bytes.
pub open spec fn token_key(n: SyntaxNode) -> (u32, u32, u32) {
    (n.start_row as u32, n.start_column as u32, n.end_byte.wrapping_sub(n.start_byte) as u32)
}

/// The tokens the captures `caps` give, by position: each capture of a
/// highlight name, on a node that is no error and not missing, sets the
/// type of the token at its node's position, a later capture replacing an
/// earlier one.
pub open spec fn token_map(caps: Seq<(String, SyntaxNode)>) -> Map<(u32, u32, u32), (u32, u32)>
    decreases caps.len(),
{
    if caps.len() == 0 {
        Map::empty()
    } else {
        let m = token_map(caps.drop_last());
        let n = caps.last().1;
        if n.is_error || n.is_missing {
            m
        } else {
            match capture_type(caps.last().0@) {
                Some(t) => m.insert(token_key(n), t),
                None => m,
            }
        }
    }
}

/// The position of an absolute token.
pub open spec fn abs_key(t: AbsoluteToken) -> (u32, u32, u32) {
    (t.line, t.start, t.length)
}

/// No two tokens of `a` share a position.
pub open spec fn keys_distinct(a: Seq<AbsoluteToken>) -> bool {
    forall|i: int, j: int| 0 <= i < j < a.len() ==> abs_key(a[i]) != abs_key(a[j])
}

/// The tokens of `a`, by position.
pub open spec fn abs_map(a: Seq<AbsoluteToken>) -> Map<(u32, u32, u32), (u32, u32)> {
    Map::new(
        |k: (u32, u32, u32)| exists|i: int| 0 <= i < a.len() && abs_key(a[i]) == k,
        |k: (u32, u32, u32)|
            {
                let i = choose|i: int| 0 <= i < a.len() && abs_key(a[i]) == k;
                (a[i].token_type, a[i].modifiers)
            },
    )
}

/// Token `s` comes no later than token `t`: on an earlier line, or on the
/// same line at or before it.
pub open spec fn no_later(s: AbsoluteToken, t: AbsoluteToken) -> bool {
    s.line < t.line || (s.line == t.line && s.start <= t.start)
}

/// The tokens of `a` are in the order of their lines and starts.
pub open spec fn in_position_order(a: Seq<AbsoluteToken>) -> bool {
    forall|i: int, j: int| 0 <= i < j < a.len() ==> no_later(a[i], a[j])
}

/// Token `t` relative to the token before it, at `prev_line` and
/// `prev_start`.
pub open spec fn delta_of(prev_line: u32, prev_start: u32, t: AbsoluteToken) -> SemanticToken {
    SemanticToken {
        delta_line: (t.line - prev_line) as u32,
        delta_start: (if t.line == prev_line {
            t.start - prev_start
        } else {
            t.start as int
        }) as u32,
        length: t.length,
        token_type: t.token_type,
        token_modifiers_bitset: t.modifiers,
    }
}

/// The tokens of `a`, each relative to the one before it (the first to
/// line 0, column 0).
pub open spec fn delta_encode(a: Seq<AbsoluteToken>) -> Seq<SemanticToken> {
    Seq::new(
        a.len(),
        |i: int|
            if i == 0 {
                delta_of(0, 0, a[0])
            } else {
                delta_of(a[i - 1].line, a[i - 1].start, a[i])
            },
    )
}

/// The absolute line and start of token `i` of relative tokens `d`.
pub open spec fn decoded_position(d: Seq<SemanticToken>, i: int) -> (int, int)
    decreases i + 1,
{
    if i < 0 {
        (0, 0)
    } else {
        let p = decoded_position(d, i - 1);
        if d[i].delta_line == 0 {
            (p.0, p.1 + d[i].delta_start)
        } else {
            (p.0 + d[i].delta_line, d[i].delta_start as int)
        }
    }
}

/// Decoding relative tokens gives back the absolute positions of tokens in
/// position order: the line and start of each token are the sum of the
/// line deltas before it, and its start delta added to the start before it
/// on the same line.
pub proof fn lemma_decode_delta_encode(a: Seq<AbsoluteToken>, i: int)
    requires
        in_position_order(a),
        0 <= i < a.len(),
    ensures
        decoded_position(delta_encode(a), i) == (a[i].line as int, a[i].start as int),
        delta_encode(a)[i].length == a[i].length,
        delta_encode(a)[i].token_type == a[i].token_type,
        delta_encode(a)[i].token_modifiers_bitset == a[i].modifiers,
    decreases i,
{
    let d = delta_encode(a);
    assert(decoded_position(d, -1) == (0int, 0int));
    if i > 0 {
        lemma_decode_delta_encode(a, i - 1);
        assert(no_later(a[i - 1], a[i]));
        assert(d[i] == delta_of(a[i - 1].line, a[i - 1].start, a[i]));
    } else {
        assert(d[0] == delta_of(0, 0, a[0]));
    }
}

/// Puts token `t` into the position-ordered tokens `a`: it replaces the
/// type of a token at the same position, or goes after every token that
/// comes no later than it.
fn place_token(a: &mut Vec<AbsoluteToken>, t: AbsoluteToken)
    requires
        in_position_order(old(a)@),
        keys_distinct(old(a)@),
    ensures
        in_position_order(final(a)@),
        keys_distinct(final(a)@),
        abs_map(final(a)@) == abs_map(old(a)@).insert(abs_key(t), (t.token_type, t.modifiers)),
{
    let ghost a0 = a@;
    let mut i: usize = 0;
    while i < a.len()
        invariant
            a@ == a0,
            a0 == old(a)@,
            i <= a0.len(),
            in_position_order(a0),
            keys_distinct(a0),
            forall|j: int| 0 <= j < i ==> abs_key(#[trigger] a0[j]) != abs_key(t),
        decreases a0.len() - i,
    {
        if a[i].line == t.line && a[i].start == t.start && a[i].length == t.length {
            let mut u = a[i];
            u.token_type = t.token_type;
            u.modifiers = t.modifiers;
            a.set(i, u);
            assert(forall|j: int| 0 <= j < a@.len() ==> abs_key(#[trigger] a@[j]) == abs_key(a0[j]));
            assert(abs_map(a@) =~= abs_map(a0).insert(abs_key(t), (t.token_type, t.modifiers))) by {
                assert forall|k: (u32, u32, u32)| #[trigger] abs_map(a@).contains_key(k) <==> abs_map(a0).insert(abs_key(t), (t.token_type, t.modifiers)).contains_key(k) by {
                    if exists|j: int| 0 <= j < a0.len() && abs_key(a0[j]) == k {
                        let j = choose|j: int| 0 <= j < a0.len() && abs_key(a0[j]) == k;
                        assert(abs_key(a@[j]) == k);
                    }
                    if exists|j: int| 0 <= j < a@.len() && abs_key(a@[j]) == k {
                        let j = choose|j: int| 0 <= j < a@.len() && abs_key(a@[j]) == k;
                        assert(abs_key(a0[j]) == k);
                    }
                    if k == abs_key(t) {
                        assert(abs_key(a@[i as int]) == k);
                    }
                }
                assert forall|k: (u32, u32, u32)| #[trigger] abs_map(a@).contains_key(k) implies abs_map(a@)[k] == abs_map(a0).insert(abs_key(t), (t.token_type, t.modifiers))[k] by {
                    let j = choose|j: int| 0 <= j < a@.len() && abs_key(a@[j]) == k;
                    assert(abs_key(a0[j]) == k);
                    if k != abs_key(t) {
                        let j0 = choose|j0: int| 0 <= j0 < a0.len() && abs_key(a0[j0]) == k;
                        if j < j0 {
                            assert(abs_key(a0[j]) != abs_key(a0[j0]));
                        } else if j0 < j {
                            assert(abs_key(a0[j0]) != abs_key(a0[j]));
                        }
                        assert(j == j0);
                    } else {
                        assert(abs_key(a0[i as int]) == k);
                        if j < i {
                            assert(abs_key(a0[j]) != abs_key(a0[i as int]));
                        } else if i < j {
                            assert(abs_key(a0[i as int]) != abs_key(a0[j]));
                        }
                        assert(j == i);
                    }
                }
            }
            assert(in_position_order(a@)) by {
                assert forall|x: int, y: int| 0 <= x < y < a@.len() implies no_later(a@[x], a@[y]) by {
                    assert(no_later(a0[x], a0[y]));
                }
            }
            assert(keys_distinct(a@)) by {
                assert forall|x: int, y: int| 0 <= x < y < a@.len() implies abs_key(a@[x]) != abs_key(a@[y]) by {
                    assert(abs_key(a0[x]) != abs_key(a0[y]));
                }
            }
            return;
        }
        i = i + 1;
    }
    let mut p: usize = a.len();
    while p > 0 && !(a[p - 1].line < t.line || (a[p - 1].line == t.line && a[p - 1].start <= t.start))
        invariant
            a@ == a0,
            p <= a0.len(),
            in_position_order(a0),
            keys_distinct(a0),
            forall|j: int| 0 <= j < a0.len() ==> abs_key(#[trigger] a0[j]) != abs_key(t),
            forall|j: int| p <= j < a0.len() ==> !no_later(#[trigger] a0[j], t),
        decreases p,
    {
        p = p - 1;
    }
    proof {
        if p > 0 {
            assert(no_later(a0[p - 1], t));
            assert forall|j: int| 0 <= j < p implies no_later(#[trigger] a0[j], t) by {
                if j < p - 1 {
                    assert(no_later(a0[j], a0[p - 1]));
                }
            }
        }
    }
    a.insert(p, t);
    assert(a@ =~= a0.insert(p as int, t));
    assert(in_position_order(a@)) by {
        assert forall|x: int, y: int| 0 <= x < y < a@.len() implies no_later(a@[x], a@[y]) by {
            if y < p {
                assert(no_later(a0[x], a0[y]));
            } else if y == p {
                assert(no_later(a0[x], t));
            } else if x < p {
                assert(no_later(a0[x], a0[y - 1]));
            } else if x == p {
                assert(!no_later(a0[y - 1], t));
            } else {
                assert(no_later(a0[x - 1], a0[y - 1]));
            }
        }
    }
    assert(keys_distinct(a@)) by {
        assert forall|x: int, y: int| 0 <= x < y < a@.len() implies abs_key(a@[x]) != abs_key(a@[y]) by {
            if y < p {
                assert(abs_key(a0[x]) != abs_key(a0[y]));
            } else if y == p {
                assert(abs_key(a0[x]) != abs_key(t));
            } else if x < p {
                assert(abs_key(a0[x]) != abs_key(a0[y - 1]));
            } else if x == p {
                assert(abs_key(a0[y - 1]) != abs_key(t));
            } else {
                assert(abs_key(a0[x - 1]) != abs_key(a0[y - 1]));
            }
        }
    }
    assert(abs_map(a@) =~= abs_map(a0).insert(abs_key(t), (t.token_type, t.modifiers))) by {
        assert forall|k: (u32, u32, u32)| #[trigger] abs_map(a@).contains_key(k) <==> abs_map(a0).insert(abs_key(t), (t.token_type, t.modifiers)).contains_key(k) by {
            if exists|j: int| 0 <= j < a0.len() && abs_key(a0[j]) == k {
                let j = choose|j: int| 0 <= j < a0.len() && abs_key(a0[j]) == k;
                if j < p {
                    assert(abs_key(a@[j]) == k);
                } else {
                    assert(abs_key(a@[j + 1]) == k);
                }
            }
            if exists|j: int| 0 <= j < a@.len() && abs_key(a@[j]) == k {
                let j = choose|j: int| 0 <= j < a@.len() && abs_key(a@[j]) == k;
                if j < p {
                    assert(abs_key(a0[j]) == k);
                } else if j > p {
                    assert(abs_key(a0[j - 1]) == k);
                }
            }
            if k == abs_key(t) {
                assert(abs_key(a@[p as int]) == k);
            }
        }
        assert forall|k: (u32, u32, u32)| #[trigger] abs_map(a@).contains_key(k) implies abs_map(a@)[k] == abs_map(a0).insert(abs_key(t), (t.token_type, t.modifiers))[k] by {
            let j = choose|j: int| 0 <= j < a@.len() && abs_key(a@[j]) == k;
            if k != abs_key(t) {
                let j0 = choose|j0: int| 0 <= j0 < a0.len() && abs_key(a0[j0]) == k;
                if j < p {
                    assert(abs_key(a0[j]) == k);
                    assert(j == j0);
                } else {
                    assert(j != p);
                    assert(abs_key(a0[j - 1]) == k);
                    assert(j - 1 == j0);
                }
            } else {
                assert(j == p);
            }
        }
    }
}

/// The semantic tokens the highlight captures of a list of matches give:
/// the tokens of `token_map`, in the order of their positions, each
/// relative to the one before it.
pub fn tokens_from_captures(matches: &Vec<Vec<(String, SyntaxNode)>>) -> (r: Vec<SemanticToken>)
    ensures
        exists|a: Seq<AbsoluteToken>|
            in_position_order(a) && keys_distinct(a) && abs_map(a) == token_map(
                all_captures(matches@),
            ) && r@ == delta_encode(a),
{
    let ghost mv = matches@.map_values(|m: Vec<(String, SyntaxNode)>| m@);
    let mut a: Vec<AbsoluteToken> = Vec::new();
    assert(abs_map(a@) =~= token_map(flat(mv.subrange(0, 0))));
    let mut i: usize = 0;
    while i < matches.len()
        invariant
            i <= matches@.len(),
            mv == matches@.map_values(|m: Vec<(String, SyntaxNode)>| m@),
            in_position_order(a@),
            keys_distinct(a@),
            abs_map(a@) == token_map(flat(mv.subrange(0, i as int))),
        decreases matches@.len() - i,
    {
        let caps = &matches[i];
        let ghost before = flat(mv.subrange(0, i as int));
        assert(mv[i as int] == caps@);
        let mut j: usize = 0;
        assert(before + caps@.subrange(0, 0) =~= before);
        while j < caps.len()
            invariant
                j <= caps@.len(),
                in_position_order(a@),
                keys_distinct(a@),
                abs_map(a@) == token_map(before + caps@.subrange(0, j as int)),
            decreases caps@.len() - j,
        {
            let (name, node) = &caps[j];
            let ghost sub = before + caps@.subrange(0, j + 1);
            assert(sub.drop_last() =~= before + caps@.subrange(0, j as int));
            assert(sub.last() == caps@[j as int]);
            if !node.is_error && !node.is_missing {
                match capture_to_ttype(name.as_str()) {
                    Some((ti, tm)) => {
                        let t = AbsoluteToken {
                            line: #[verifier::truncate] (node.start_row as u32),
                            start: #[verifier::truncate] (node.start_column as u32),
                            length: #[verifier::truncate] (node.end_byte.wrapping_sub(node.start_byte) as u32),
                            token_type: ti,
                            modifiers: tm,
                        };
                        assert(abs_key(t) == token_key(*node));
                        place_token(&mut a, t);
                    },
                    None => {},
                }
            }
            j = j + 1;
        }
        assert(caps@.subrange(0, caps@.len() as int) =~= caps@);
        assert(mv.subrange(0, i + 1).drop_last() =~= mv.subrange(0, i as int));
        i = i + 1;
    }
    assert(mv.subrange(0, mv.len() as int) =~= mv);
    let mut out: Vec<SemanticToken> = Vec::new();
    let mut pl: u32 = 0;
    let mut ps: u32 = 0;
    let mut k: usize = 0;
    while k < a.len()
        invariant
            k <= a@.len(),
            in_position_order(a@),
            out@ == delta_encode(a@).subrange(0, k as int),
            k == 0 ==> pl == 0 && ps == 0,
            k > 0 ==> pl == a@[k - 1].line && ps == a@[k - 1].start,
        decreases a@.len() - k,
    {
        let t = a[k];
        proof {
            if k > 0 {
                assert(no_later(a@[k - 1], a@[k as int]));
            }
        }
        let dl = t.line - pl;
        let ds = if dl == 0 {
            t.start - ps
        } else {
            t.start
        };
        out.push(
            SemanticToken {
                delta_line: dl,
                delta_start: ds,
                length: t.length,
                token_type: t.token_type,
                token_modifiers_bitset: t.modifiers,
            },
        );
        assert(out@ =~= delta_encode(a@).subrange(0, k + 1));
        pl = t.line;
        ps = t.start;
        k = k + 1;
    }
    assert(delta_encode(a@).subrange(0, a@.len() as int) =~= delta_encode(a@));
    out
}

/// The semantic tokens of Maxima `source`: the captures of the highlight
/// query `highlights` (in the grammar `lang`) turned into tokens; an error
/// naming the query's problem when it does not compile.
pub fn tokens(lang: &tree_sitter::Language, highlights: &str, source: &str) -> (r: Result<
    Vec<SemanticToken>,
    String,
>)
    ensures
        query_in(*lang, highlights@) is Err ==> (r matches Err(m) && m@ == "Failed to compile highlights query: "@
            + query_in(*lang, highlights@)->Err_0),
        query_in(*lang, highlights@) is Ok ==> (r matches Ok(v) && exists|
            ms: Seq<Vec<(String, SyntaxNode)>>,
            a: Seq<AbsoluteToken>,
        |
            #![trigger captures_of(ms, *lang, query_in(*lang, highlights@)->Ok_0, source@), delta_encode(a)]
            captures_of(ms, *lang, query_in(*lang, highlights@)->Ok_0, source@) && in_position_order(a)
                && keys_distinct(a) && abs_map(a) == token_map(all_captures(ms)) && v@ == delta_encode(a)),
{
    let query = match crate::parse::new_query(lang, highlights) {
        Ok(q) => q,
        Err(e) => {
            let mut m = String::new();
            append_str(&mut m, "Failed to compile highlights query: ");
            append_str(&mut m, e.as_str());
            return Err(m);
        },
    };
    let matches = crate::parse::query_captures(lang, &query, source);
    let v = tokens_from_captures(&matches);
    proof {
        let a = choose|a: Seq<AbsoluteToken>|
            in_position_order(a) && keys_distinct(a) && abs_map(a) == token_map(all_captures(matches@))
                && v@ == delta_encode(a);
        assert(captures_of(matches@, *lang, query, source@) && in_position_order(a) && keys_distinct(a)
            && abs_map(a) == token_map(all_captures(matches@)) && v@ == delta_encode(a));
        assert(query_in(*lang, highlights@) == Ok::<tree_sitter::Query, Seq<char>>(query));
        assert(query_in(*lang, highlights@)->Ok_0 == query);
        assert(exists|ms: Seq<Vec<(String, SyntaxNode)>>, a2: Seq<AbsoluteToken>|
            #![trigger captures_of(ms, *lang, query_in(*lang, highlights@)->Ok_0, source@), delta_encode(a2)]
            captures_of(ms, *lang, query_in(*lang, highlights@)->Ok_0, source@) && in_position_order(a2)
                && keys_distinct(a2) && abs_map(a2) == token_map(all_captures(ms)) && v@ == delta_encode(a2));
    }
    Ok(v)
}

// ---------------------------------------------------------------------
// Document symbols

/// The kind of a document symbol.
#[derive(Clone, Copy, Debug, PartialEq, Eq, Structural)]
pub enum SymbolKind {
    Function,
    Variable,
}

/// What a document symbol says.
pub struct SymbolView {
    pub name: Seq<char>,
    pub kind: SymbolKind,
    pub range: Range,
    pub selection_range: Range,
}

/// A symbol that a document defines: its name and kind, the range of its
/// definition and the range of its name.
pub struct DocumentSymbol {
    pub name: String,
    pub kind: SymbolKind,
    pub range: Range,
    pub selection_range: Range,
}

impl View for DocumentSymbol {
    type V = SymbolView;

    open spec fn view(&self) -> SymbolView {
        SymbolView {
            name: self.name@,
            kind: self.kind,
            range: self.range,
            selection_range: self.selection_range,
        }
    }
}

/// The views of symbols.
pub open spec fn symbol_views(v: Seq<DocumentSymbol>) -> Seq<SymbolView> {
    v.map_values(|d: DocumentSymbol| d@)
}

/// The empty range at the start of a document.
pub open spec fn zero_range() -> Range {
    Range { start: Position { line: 0, character: 0 }, end: Position { line: 0, character: 0 } }
}

/// What the captures of one tag match say of its symbol after `caps`: a
/// `name` capture gives the name (its text) and the selection range, a
/// `definition.function` or `definition.variable` capture the kind and the
/// range; it starts as a nameless variable at the empty range.
pub open spec fn symbol_scan(src: Seq<u8>, caps: Seq<(String, SyntaxNode)>) -> SymbolView
    decreases caps.len(),
{
    if caps.len() == 0 {
        SymbolView {
            name: Seq::empty(),
            kind: SymbolKind::Variable,
            range: zero_range(),
            selection_range: zero_range(),
        }
    } else {
        let st = symbol_scan(src, caps.drop_last());
        let n = caps.last().1;
        let c = caps.last().0@;
        if c == "name"@ {
            SymbolView {
                name: crate::lisp_extractor::text_or_empty(src, n),
                selection_range: node_range(n),
                ..st
            }
        } else if c == "definition.function"@ {
            SymbolView { kind: SymbolKind::Function, range: node_range(n), ..st }
        } else if c == "definition.variable"@ {
            SymbolView { kind: SymbolKind::Variable, range: node_range(n), ..st }
        } else {
            st
        }
    }
}

/// The symbols of the tag matches `ms`, one for each match that names
/// one, in order.
pub open spec fn symbols_of(src: Seq<u8>, ms: Seq<Vec<(String, SyntaxNode)>>) -> Seq<SymbolView>
    decreases ms.len(),
{
    if ms.len() == 0 {
        Seq::empty()
    } else {
        let rest = symbols_of(src, ms.drop_last());
        let st = symbol_scan(src, ms.last()@);
        if st.name.len() > 0 {
            rest.push(st)
        } else {
            rest
        }
    }
}

/// The symbols that the tag matches of `source` give.
pub fn symbols_from_matches(matches: &Vec<Vec<(String, SyntaxNode)>>, source: &str) -> (r: Vec<
    DocumentSymbol,
>)
    ensures
        symbol_views(r@) == symbols_of(source.spec_bytes(), matches@),
{
    let src = source.as_bytes();
    let mut out: Vec<DocumentSymbol> = Vec::new();
    let zero = Range { start: Position { line: 0, character: 0 }, end: Position { line: 0, character: 0 } };
    let mut i: usize = 0;
    assert(symbol_views(out@) =~= symbols_of(src@, matches@.subrange(0, 0)));
    while i < matches.len()
        invariant
            i <= matches@.len(),
            src@ == source.spec_bytes(),
            zero == zero_range(),
            symbol_views(out@) == symbols_of(src@, matches@.subrange(0, i as int)),
        decreases matches@.len() - i,
    {
        let caps = &matches[i];
        let mut name = String::new();
        let mut kind = SymbolKind::Variable;
        let mut range = zero;
        let mut selection = zero;
        let mut j: usize = 0;
        assert(caps@.subrange(0, 0) =~= Seq::<(String, SyntaxNode)>::empty());
        while j < caps.len()
            invariant
                j <= caps@.len(),
                src@ == source.spec_bytes(),
                zero == zero_range(),
                symbol_scan(src@, caps@.subrange(0, j as int)) == (SymbolView {
                    name: name@,
                    kind,
                    range,
                    selection_range: selection,
                }),
            decreases caps@.len() - j,
        {
            let (cname, node) = &caps[j];
            let ghost sub = caps@.subrange(0, j + 1);
            assert(sub.drop_last() =~= caps@.subrange(0, j as int));
            assert(sub.last() == caps@[j as int]);
            if crate::text::str_equals(cname.as_str(), "name") {
                name = match node_text(src, node) {
                    Some(t) => t,
                    None => String::new(),
                };
                selection = range_of(node);
            } else if crate::text::str_equals(cname.as_str(), "definition.function") {
                kind = SymbolKind::Function;
                range = range_of(node);
            } else if crate::text::str_equals(cname.as_str(), "definition.variable") {
                kind = SymbolKind::Variable;
                range = range_of(node);
            }
            j = j + 1;
        }
        assert(caps@.subrange(0, caps@.len() as int) =~= caps@);
        let ghost sub = matches@.subrange(0, i + 1);
        assert(sub.drop_last() =~= matches@.subrange(0, i as int));
        assert(sub.last() == matches@[i as int]);
        if !name.as_str().is_empty() {
            let sym = DocumentSymbol { name, kind, range, selection_range: selection };
            let ghost before = symbol_views(out@);
            let ghost sv = sym@;
            out.push(sym);
            assert(symbol_views(out@) =~= before.push(sv));
        }
        i = i + 1;
    }
    assert(matches@.subrange(0, matches@.len() as int) =~= matches@);
    out
}

/// The symbols of Maxima `source`: those of the matches of the tags query
/// `tags` in the grammar `lang`; `None` when the query does not compile or
/// names no symbol.
pub fn document_symbols(lang: &tree_sitter::Language, tags: &str, source: &str) -> (r: Option<
    Vec<DocumentSymbol>,
>)
    ensures
        query_in(*lang, tags@) is Err ==> r is None,
        query_in(*lang, tags@) is Ok ==> exists|ms: Seq<Vec<(String, SyntaxNode)>>|
            #![trigger captures_of(ms, *lang, query_in(*lang, tags@)->Ok_0, source@)]
            captures_of(ms, *lang, query_in(*lang, tags@)->Ok_0, source@) && match r {
                None => symbols_of(source.spec_bytes(), ms).len() == 0,
                Some(v) => v@.len() > 0 && symbol_views(v@) == symbols_of(source.spec_bytes(), ms),
            },
{
    let query = match crate::parse::new_query(lang, tags) {
        Ok(q) => q,
        Err(_) => {
            return None;
        },
    };
    let matches = crate::parse::query_captures(lang, &query, source);
    assert(captures_of(matches@, *lang, query, source@));
    assert(query_in(*lang, tags@) == Ok::<tree_sitter::Query, Seq<char>>(query));
    let symbols = symbols_from_matches(&matches, source);
    let r = if symbols.len() == 0 {
        None
    } else {
        Some(symbols)
    };
    assert(match r {
        None => symbols_of(source.spec_bytes(), matches@).len() == 0,
        Some(v) => v@.len() > 0 && symbol_views(v@) == symbols_of(source.spec_bytes(), matches@),
    });
    assert(query_in(*lang, tags@)->Ok_0 == query);
    assert(exists|ms: Seq<Vec<(String, SyntaxNode)>>|
        #![trigger captures_of(ms, *lang, query_in(*lang, tags@)->Ok_0, source@)]
        captures_of(ms, *lang, query_in(*lang, tags@)->Ok_0, source@) && match r {
            None => symbols_of(source.spec_bytes(), ms).len() == 0,
            Some(v) => v@.len() > 0 && symbol_views(v@) == symbols_of(source.spec_bytes(), ms),
        });
    r
}

// ---------------------------------------------------------------------
// Go to definition

/// The module that go-to-definition at `pos` resolves: the text of a
/// string or atom at that position, without its quotes, unless that is
/// empty or holds a parenthesis.
pub open spec fn goto_load_name_of(tree: SyntaxNode, source: Seq<char>, pos: Position) -> Option<Seq<char>> {
    match position_byte(source, pos) {
        None => None,
        Some(b) => {
            let n = deepest_at(tree, b);
            if n.kind@ != "string"@ && n.kind@ != "atom"@ {
                None
            } else {
                match node_text_of(encode_utf8(source), n) {
                    None => None,
                    Some(t) => {
                        let name = trim_char(t, '"');
                        if name.len() == 0 || has_char(name, '(') || has_char(name, ')') {
                            None
                        } else {
                            Some(name)
                        }
                    },
                }
            }
        },
    }
}

/// The module to resolve for go-to-definition at `pos` of a document with
/// text `source` and tree `tree`.
pub fn goto_load_name(tree: &SyntaxNode, source: &str, pos: Position) -> (r: Option<String>)
    ensures
        r matches Some(s) ==> goto_load_name_of(*tree, source@, pos) == Some(s@),
        r is None ==> goto_load_name_of(*tree, source@, pos) is None,
{
    let byte = match position_to_byte(source, pos) {
        Some(b) => b,
        None => {
            return None;
        },
    };
    let node = match deepest_node_at(tree, byte) {
        Some(n) => n,
        None => {
            return None;
        },
    };
    if !kind_is(node, "string") && !kind_is(node, "atom") {
        return None;
    }
    let text = match node_text(source.as_bytes(), node) {
        Some(t) => t,
        None => {
            return None;
        },
    };
    let tc = chars_of(text.as_str());
    let name = trim_matches(tc.as_slice(), '"');
    if name.len() == 0 || contains_char(name.as_slice(), '(') || contains_char(name.as_slice(), ')') {
        return None;
    }
    Some(string_of(name.as_slice()))
}

/// The identifier that go-to-definition at `pos` looks up: the text of the
/// deepest node there when it is an identifier.
pub open spec fn goto_identifier_of(tree: SyntaxNode, source: Seq<char>, pos: Position) -> Option<Seq<char>> {
    match position_byte(source, pos) {
        None => None,
        Some(b) => {
            let n = deepest_at(tree, b);
            if n.kind@ == "identifier"@ {
                node_text_of(encode_utf8(source), n)
            } else {
                None
            }
        },
    }
}

/// The identifier to look up for go-to-definition at `pos`.
pub fn goto_identifier(tree: &SyntaxNode, source: &str, pos: Position) -> (r: Option<String>)
    ensures
        r matches Some(s) ==> goto_identifier_of(*tree, source@, pos) == Some(s@),
        r is None ==> goto_identifier_of(*tree, source@, pos) is None,
{
    let byte = match position_to_byte(source, pos) {
        Some(b) => b,
        None => {
            return None;
        },
    };
    let node = match deepest_node_at(tree, byte) {
        Some(n) => n,
        None => {
            return None;
        },
    };
    if kind_is(node, "identifier") {
        node_text(source.as_bytes(), node)
    } else {
        None
    }
}

/// The location that go-to-definition gives for a resolved file: the start
/// of the file, named by its `file:` URL; `None` when the path has no URL.
pub fn path_location(path: &str) -> (r: Option<Location>)
    ensures
        r matches Some(l) ==> l@ == (LocationView {
            uri: crate::lsp::file_url_of(path@),
            range: zero_range(),
        }),
        r is None <==> !crate::pathname::is_absolute_spec(path@),
{
    match file_url(path) {
        Some(u) => Some(
            Location {
                uri: u,
                range: Range {
                    start: Position { line: 0, character: 0 },
                    end: Position { line: 0, character: 0 },
                },
            },
        ),
        None => None,
    }
}

// ---------------------------------------------------------------------
// Edits

/// Whether byte `b` of the encoding of `s` starts a character (or is its
/// end).
pub open spec fn at_char_start(s: Seq<char>, b: int) -> bool {
    exists|i: int| 0 <= i <= s.len() && byte_len(s.subrange(0, i)) == b
}

/// Whether an edit of `range` can be applied to text `s`: when both its
/// positions name bytes, the first comes no later than the second and both
/// fall between characters.
pub open spec fn change_applies_to(s: Seq<char>, range: Option<Range>) -> bool {
    match range {
        None => true,
        Some(r) => match (position_byte(s, r.start), position_byte(s, r.end)) {
            (Some(a), Some(b)) => a <= b && at_char_start(s, a) && at_char_start(s, b),
            _ => true,
        },
    }
}

/// The encoding of text `s` after an edit replaces `range` with `t`: the
/// whole text when there is no range; the bytes between the two positions
/// when both name bytes; no change otherwise.
pub open spec fn edited_bytes(s: Seq<char>, range: Option<Range>, t: Seq<char>) -> Seq<u8> {
    match range {
        None => encode_utf8(t),
        Some(r) => match (position_byte(s, r.start), position_byte(s, r.end)) {
            (Some(a), Some(b)) => encode_utf8(s).subrange(0, a) + encode_utf8(t) + encode_utf8(
                s,
            ).subrange(b, encode_utf8(s).len() as int),
            _ => encode_utf8(s),
        },
    }
}

pub proof fn lemma_split_bytes(s: Seq<char>, i: int)
    requires
        0 <= i <= s.len(),
    ensures
        encode_utf8(s.subrange(0, i)) == encode_utf8(s).subrange(0, byte_len(s.subrange(0, i))),
        encode_utf8(s.subrange(i, s.len() as int)) == encode_utf8(s).subrange(
            byte_len(s.subrange(0, i)),
            encode_utf8(s).len() as int,
        ),
{
    lemma_encode_append(s.subrange(0, i), s.subrange(i, s.len() as int));
    assert(s.subrange(0, i) + s.subrange(i, s.len() as int) =~= s);
    let e = encode_utf8(s);
    let p = encode_utf8(s.subrange(0, i));
    let q = encode_utf8(s.subrange(i, s.len() as int));
    assert(e == p + q);
    assert(e.subrange(0, p.len() as int) =~= p);
    assert(e.subrange(p.len() as int, e.len() as int) =~= q);
}

/// The index of the character that starts at byte `b` of the encoding of
/// `s` (or `s`'s length for its end).
fn char_index_at(s: &Vec<char>, b: usize) -> (r: Option<usize>)
    ensures
        r matches Some(i) ==> i <= s@.len() && byte_len(s@.subrange(0, i as int)) == b,
        r is None ==> !at_char_start(s@, b as int),
{
    let mut i: usize = 0;
    let mut acc: usize = 0;
    assert(s@.subrange(0, 0) =~= Seq::<char>::empty());
    while i <= s.len()
        invariant
            i <= s@.len() + 1,
            i <= s@.len() ==> acc == byte_len(s@.subrange(0, i as int)),
            forall|j: int| 0 <= j < i && j <= s@.len() ==> #[trigger] byte_len(s@.subrange(0, j)) < b,
        decreases s@.len() + 1 - i,
    {
        if acc == b {
            return Some(i);
        }
        if acc > b || i == s.len() {
            proof {
                assert forall|j: int| 0 <= j <= s@.len() implies #[trigger] byte_len(s@.subrange(0, j)) != b by {
                    if j > i {
                        lemma_byte_len_monotone(s@, i as int, j);
                    }
                }
            }
            return None;
        }
        proof {
            lemma_byte_len_push(s@.subrange(0, i as int), s@[i as int]);
            assert(s@.subrange(0, i as int).push(s@[i as int]) =~= s@.subrange(0, i + 1));
        }
        let w = utf8_width(s[i]);
        if w > b - acc {
            proof {
                assert forall|j: int| 0 <= j <= s@.len() implies #[trigger] byte_len(s@.subrange(0, j)) != b by {
                    if j > i {
                        lemma_byte_len_monotone(s@, i + 1, j);
                    }
                }
            }
            return None;
        }
        acc = acc + w;
        i = i + 1;
    }
    None
}

pub proof fn lemma_byte_len_monotone(s: Seq<char>, i: int, j: int)
    requires
        0 <= i <= j <= s.len(),
    ensures
        byte_len(s.subrange(0, i)) <= byte_len(s.subrange(0, j)),
{
    lemma_byte_len_prefix(s.subrange(0, j), i);
    assert(s.subrange(0, j).subrange(0, i) =~= s.subrange(0, i));
}

pub proof fn lemma_byte_len_increasing(s: Seq<char>, i: int, j: int)
    requires
        0 <= i < j <= s.len(),
    ensures
        byte_len(s.subrange(0, i)) < byte_len(s.subrange(0, j)),
{
    lemma_byte_len_monotone(s, i, j - 1);
    lemma_byte_len_push(s.subrange(0, j - 1), s[j - 1]);
    assert(s.subrange(0, j - 1).push(s[j - 1]) =~= s.subrange(0, j));
}

/// Whether an edit of `range` can be applied to `text`.
pub fn change_applies(text: &str, range: Option<Range>) -> (b: bool)
    ensures
        b == change_applies_to(text@, range),
{
    let r = match range {
        Some(r) => r,
        None => {
            return true;
        },
    };
    let a = match position_to_byte(text, r.start) {
        Some(a) => a,
        None => {
            return true;
        },
    };
    let b = match position_to_byte(text, r.end) {
        Some(b) => b,
        None => {
            return true;
        },
    };
    if a > b {
        return false;
    }
    let chars = chars_of(text);
    char_index_at(&chars, a).is_some() && char_index_at(&chars, b).is_some()
}

/// `text` after an edit replaces `range` with `new_text` (the whole text
/// when there is no range).
pub fn apply_change(text: &str, range: Option<Range>, new_text: &str) -> (r: String)
    requires
        change_applies_to(text@, range),
    ensures
        encode_utf8(r@) == edited_bytes(text@, range, new_text@),
{
    let rg = match range {
        Some(rg) => rg,
        None => {
            return String::from_str(new_text);
        },
    };
    let a = position_to_byte(text, rg.start);
    let b = position_to_byte(text, rg.end);
    match (a, b) {
        (Some(a), Some(b)) => {
            let chars = chars_of(text);
            let ia = match char_index_at(&chars, a) {
                Some(i) => i,
                None => {
                    return String::from_str(text);
                },
            };
            let ib = match char_index_at(&chars, b) {
                Some(i) => i,
                None => {
                    return String::from_str(text);
                },
            };
            proof {
                if ib < ia {
                    lemma_byte_len_increasing(text@, ib as int, ia as int);
                }
            }
            let head = copy_range(chars.as_slice(), 0, ia);
            let tail = copy_range(chars.as_slice(), ib, chars.len());
            let mut out = string_of(head.as_slice());
            append_str(&mut out, new_text);
            crate::text::append_chars(&mut out, tail.as_slice());
            proof {
                lemma_split_bytes(text@, ia as int);
                lemma_split_bytes(text@, ib as int);
                lemma_encode_append(head@ + new_text@, tail@);
                lemma_encode_append(head@, new_text@);
                assert(out@ == head@ + new_text@ + tail@);
            }
            out
        },
        _ => String::from_str(text),
    }
}

} // verus!
