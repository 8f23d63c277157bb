//! Documentation entries: the built-in function and constant tables shown
//! on hover and in completion, and snippet text for inserting a call.

use vstd::prelude::*;
use crate::builtin_tables::{
    algebra_rows, algebra_table, arithmetic_rows, arithmetic_table, assignment_rows,
    assignment_table, calculus_rows, calculus_table, constants_rows, constants_table, control_rows,
    control_table, display_rows, display_table, matrix_rows, matrix_table, number_theory_rows,
    number_theory_table, row_views, sets_rows, sets_table, special_rows, special_table,
    system_rows, system_table, trigonometry_rows, trigonometry_table, Row,
};
use crate::name_map::NameMap;
use crate::text::{
    append_chars, append_str, chars_of, copy_range, next_index, next_index_of, push_char, split,
    split_chars, trim, trim_chars, views,
};

verus! {

/// The character views of a sequence of strings.
pub open spec fn string_views(v: Seq<String>) -> Seq<Seq<char>> {
    v.map_values(|s: String| s@)
}

/// The character views of a sequence of string slices.
pub open spec fn str_views(v: Seq<&str>) -> Seq<Seq<char>> {
    v.map_values(|s: &str| s@)
}

/// What a documentation entry says, as character sequences.
#[verifier::ext_equal]
pub struct DocEntryView {
    pub signature: Seq<char>,
    pub doc: Seq<char>,
    pub params: Seq<Seq<char>>,
    pub return_doc: Seq<char>,
    pub examples: Seq<Seq<char>>,
    pub category: Seq<char>,
}

/// Documentation of one function, constant or user definition.
pub struct DocEntry {
    pub signature: String,
    pub doc: String,
    pub params: Vec<String>,
    pub return_doc: String,
    pub examples: Vec<String>,
    pub category: String,
}

impl View for DocEntry {
    type V = DocEntryView;

    open spec fn view(&self) -> DocEntryView {
        DocEntryView {
            signature: self.signature@,
            doc: self.doc@,
            params: string_views(self.params@),
            return_doc: self.return_doc@,
            examples: string_views(self.examples@),
            category: self.category@,
        }
    }
}

/// Owned copies of string slices.
pub fn strings_of(v: &[&str]) -> (r: Vec<String>)
    ensures
        string_views(r@) == str_views(v@),
{
    let mut r: Vec<String> = Vec::new();
    let mut i: usize = 0;
    while i < v.len()
        invariant
            i <= v@.len(),
            string_views(r@) == str_views(v@.subrange(0, i as int)),
        decreases v@.len() - i,
    {
        let s = String::from_str(v[i]);
        let ghost before = r@;
        r.push(s);
        assert(string_views(r@) =~= string_views(before).push(v@[i as int]@));
        assert(str_views(v@.subrange(0, i + 1)) =~= str_views(v@.subrange(0, i as int)).push(
            v@[i as int]@,
        ));
        i = i + 1;
    }
    assert(v@.subrange(0, v@.len() as int) =~= v@);
    r
}

/// Copies of strings.
pub fn clone_strings(v: &Vec<String>) -> (r: Vec<String>)
    ensures
        string_views(r@) == string_views(v@),
{
    let mut r: Vec<String> = Vec::new();
    let mut i: usize = 0;
    while i < v.len()
        invariant
            i <= v@.len(),
            string_views(r@) == string_views(v@.subrange(0, i as int)),
        decreases v@.len() - i,
    {
        let s = v[i].clone();
        let ghost before = r@;
        r.push(s);
        assert(string_views(r@) =~= string_views(before).push(v@[i as int]@));
        assert(string_views(v@.subrange(0, i + 1)) =~= string_views(v@.subrange(0, i as int)).push(
            v@[i as int]@,
        ));
        i = i + 1;
    }
    assert(v@.subrange(0, v@.len() as int) =~= v@);
    r
}

impl DocEntry {
    /// An entry made of the given texts.
    pub fn new(
        signature: &str,
        doc: &str,
        params: &[&str],
        return_doc: &str,
        examples: &[&str],
        category: &str,
    ) -> (e: DocEntry)
        ensures
            e@ == (DocEntryView {
                signature: signature@,
                doc: doc@,
                params: str_views(params@),
                return_doc: return_doc@,
                examples: str_views(examples@),
                category: category@,
            }),
    {
        DocEntry {
            signature: String::from_str(signature),
            doc: String::from_str(doc),
            params: strings_of(params),
            return_doc: String::from_str(return_doc),
            examples: strings_of(examples),
            category: String::from_str(category),
        }
    }

    /// A copy of this entry.
    pub fn duplicate(&self) -> (e: DocEntry)
        ensures
            e@ == self@,
    {
        DocEntry {
            signature: self.signature.clone(),
            doc: self.doc.clone(),
            params: clone_strings(&self.params),
            return_doc: self.return_doc.clone(),
            examples: clone_strings(&self.examples),
            category: self.category.clone(),
        }
    }

    /// Snippet text that inserts a call of `name` with one placeholder per
    /// parameter of this entry's signature.
    pub fn snippet(&self, name: &str) -> (s: String)
        ensures
            s@ == snippet_text(self.signature@, name@),
    {
        parse_signature_for_snippet(self.signature.as_str(), name)
    }
}


// ---------------------------------------------------------------------
// Snippets

/// The index of the parenthesis that closes, from `i` on, a group opened at
/// nesting depth `depth`.
pub open spec fn close_paren(s: Seq<char>, i: int, depth: nat) -> Option<int>
    decreases s.len() - i,
{
    if i < 0 || i >= s.len() {
        None
    } else if s[i] == ')' {
        if depth <= 1 {
            Some(i)
        } else {
            close_paren(s, i + 1, (depth - 1) as nat)
        }
    } else if s[i] == '(' {
        close_paren(s, i + 1, depth + 1)
    } else {
        close_paren(s, i + 1, depth)
    }
}

/// The trimmed pieces that are not empty, in order.
pub open spec fn snippet_args(pieces: Seq<Seq<char>>) -> Seq<Seq<char>>
    decreases pieces.len(),
{
    if pieces.len() == 0 {
        Seq::empty()
    } else if trim(pieces.last()).len() > 0 {
        snippet_args(pieces.drop_last()).push(trim(pieces.last()))
    } else {
        snippet_args(pieces.drop_last())
    }
}

/// The decimal digit for `d < 10`.
pub open spec fn digit_char(d: nat) -> char {
    if d == 0 {
        '0'
    } else if d == 1 {
        '1'
    } else if d == 2 {
        '2'
    } else if d == 3 {
        '3'
    } else if d == 4 {
        '4'
    } else if d == 5 {
        '5'
    } else if d == 6 {
        '6'
    } else if d == 7 {
        '7'
    } else if d == 8 {
        '8'
    } else {
        '9'
    }
}

/// The decimal notation of `n`.
pub open spec fn decimal(n: nat) -> Seq<char>
    decreases n,
{
    if n < 10 {
        seq![digit_char(n)]
    } else {
        decimal(n / 10).push(digit_char(n % 10))
    }
}

/// The snippet placeholder `${k:a}`.
pub open spec fn placeholder(k: nat, a: Seq<char>) -> Seq<char> {
    "${"@ + decimal(k) + ":"@ + a + "}"@
}

/// The placeholders for `args`, numbered from 1 and separated by `, `.
pub open spec fn placeholders(args: Seq<Seq<char>>) -> Seq<char>
    decreases args.len(),
{
    if args.len() == 0 {
        Seq::empty()
    } else if args.len() == 1 {
        placeholder(1, args[0])
    } else {
        placeholders(args.drop_last()) + ", "@ + placeholder(args.len(), args.last())
    }
}

/// The snippet that inserts a call of `name` for the signature `sig`: the
/// parameters are what stands between the first `(` and the parenthesis
/// that closes it, split at commas and trimmed; without parameters the
/// call is `name()`, and without parentheses the snippet is `name` alone.
pub open spec fn snippet_text(sig: Seq<char>, name: Seq<char>) -> Seq<char> {
    let o = next_index(sig, '(', 0);
    if o >= sig.len() {
        name
    } else {
        match close_paren(sig, o + 1, 1) {
            None => name,
            Some(c) => {
                let args = snippet_args(split(sig.subrange(o + 1, c), ','));
                if args.len() == 0 {
                    name + "()"@
                } else {
                    name + "("@ + placeholders(args) + ")"@
                }
            },
        }
    }
}

/// Appends the decimal notation of `n`.
pub fn push_decimal(s: &mut String, n: usize)
    ensures
        final(s)@ == old(s)@ + decimal(n as nat),
    decreases n,
{
    if n >= 10 {
        push_decimal(s, n / 10);
    }
    let d = n % 10;
    let c = if d == 0 {
        '0'
    } else if d == 1 {
        '1'
    } else if d == 2 {
        '2'
    } else if d == 3 {
        '3'
    } else if d == 4 {
        '4'
    } else if d == 5 {
        '5'
    } else if d == 6 {
        '6'
    } else if d == 7 {
        '7'
    } else if d == 8 {
        '8'
    } else {
        '9'
    };
    push_char(s, c);
    assert(final(s)@ =~= old(s)@ + decimal(n as nat));
}

/// The index of the parenthesis closing a group opened before `i`.
pub fn find_close_paren(s: &[char], i: usize) -> (r: Option<usize>)
    requires
        1 <= i <= s@.len(),
    ensures
        r matches Some(c) ==> close_paren(s@, i as int, 1) == Some(c as int),
        r is None ==> close_paren(s@, i as int, 1) is None,
{
    let n = s.len();
    let mut k = i;
    let mut depth: usize = 1;
    while k < n
        invariant
            n == s@.len(),
            1 <= i <= k <= s@.len(),
            1 <= depth <= k - i + 1,
            close_paren(s@, k as int, depth as nat) == close_paren(s@, i as int, 1),
        decreases s@.len() - k,
    {
        if s[k] == ')' {
            if depth <= 1 {
                return Some(k);
            }
            depth = depth - 1;
        } else if s[k] == '(' {
            depth = depth + 1;
        }
        k = k + 1;
    }
    None
}

/// The snippet that inserts a call of `name` for the signature `signature`.
pub fn parse_signature_for_snippet(signature: &str, name: &str) -> (s: String)
    ensures
        s@ == snippet_text(signature@, name@),
{
    let sig = chars_of(signature);
    let mut out = String::from_str(name);
    let o = next_index_of(sig.as_slice(), '(', 0);
    if o >= sig.len() {
        return out;
    }
    let c = match find_close_paren(sig.as_slice(), o + 1) {
        None => {
            return out;
        },
        Some(c) => c,
    };
    proof {
        lemma_close_paren_bounds(sig@, o + 1, 1);
    }
    let inner = copy_range(sig.as_slice(), o + 1, c);
    let pieces = split_chars(inner.as_slice(), ',');
    let ghost ps = views(pieces@);
    let mut args: Vec<Vec<char>> = Vec::new();
    let mut i: usize = 0;
    while i < pieces.len()
        invariant
            i <= pieces@.len(),
            ps == views(pieces@),
            views(args@) == snippet_args(ps.subrange(0, i as int)),
        decreases pieces@.len() - i,
    {
        let t = trim_chars(pieces[i].as_slice());
        assert(ps.subrange(0, i + 1).drop_last() =~= ps.subrange(0, i as int));
        if t.len() > 0 {
            let ghost before = args@;
            args.push(t);
            assert(views(args@) =~= views(before).push(t@));
        }
        i = i + 1;
    }
    assert(ps.subrange(0, ps.len() as int) =~= ps);
    if args.len() == 0 {
        append_str(&mut out, "()");
        return out;
    }
    append_str(&mut out, "(");
    let mut k: usize = 0;
    while k < args.len()
        invariant
            k <= args@.len(),
            out@ == name@ + "("@ + placeholders(views(args@).subrange(0, k as int)),
        decreases args@.len() - k,
    {
        let ghost prev = out@;
        if k > 0 {
            append_str(&mut out, ", ");
        }
        append_str(&mut out, "${");
        push_decimal(&mut out, k + 1);
        append_str(&mut out, ":");
        append_chars(&mut out, args[k].as_slice());
        append_str(&mut out, "}");
        let ghost a = views(args@).subrange(0, k + 1);
        assert(a.drop_last() =~= views(args@).subrange(0, k as int));
        assert(a.last() == args@[k as int]@);
        if k == 0 {
            assert(placeholders(views(args@).subrange(0, 0)) =~= Seq::<char>::empty());
        }
        assert(out@ =~= name@ + "("@ + placeholders(a));
        k = k + 1;
    }
    append_str(&mut out, ")");
    assert(views(args@).subrange(0, args@.len() as int) =~= views(args@));
    out
}

pub proof fn lemma_close_paren_bounds(s: Seq<char>, i: int, depth: nat)
    requires
        0 <= i,
    ensures
        close_paren(s, i, depth) matches Some(c) ==> i <= c < s.len(),
    decreases s.len() - i,
{
    if i < s.len() {
        if s[i] == ')' {
            if depth > 1 {
                lemma_close_paren_bounds(s, i + 1, (depth - 1) as nat);
            }
        } else if s[i] == '(' {
            lemma_close_paren_bounds(s, i + 1, depth + 1);
        } else {
            lemma_close_paren_bounds(s, i + 1, depth);
        }
    }
}


// ---------------------------------------------------------------------
// Built-in tables

/// The documentation a table row stands for: its signature, description
/// and category, with no parameters, return value or examples.
pub open spec fn row_entry(r: (Seq<char>, Seq<char>, Seq<char>, Seq<char>)) -> DocEntryView {
    DocEntryView {
        signature: r.1,
        doc: r.2,
        params: Seq::empty(),
        return_doc: Seq::empty(),
        examples: Seq::empty(),
        category: r.3,
    }
}

/// `m` with the rows inserted in order, a later row replacing an earlier
/// one of the same name.
pub open spec fn insert_rows(
    m: Map<Seq<char>, DocEntryView>,
    rows: Seq<(Seq<char>, Seq<char>, Seq<char>, Seq<char>)>,
) -> Map<Seq<char>, DocEntryView>
    decreases rows.len(),
{
    if rows.len() == 0 {
        m
    } else {
        insert_rows(m, rows.drop_last()).insert(rows.last().0, row_entry(rows.last()))
    }
}

/// The views of the entries of a map.
pub open spec fn entry_views(m: Map<Seq<char>, DocEntry>) -> Map<Seq<char>, DocEntryView> {
    m.map_values(|e: DocEntry| e@)
}

/// The built-in functions, in the order of their table sections.
pub open spec fn builtin_functions() -> Map<Seq<char>, DocEntryView> {
    let m = insert_rows(Map::empty(), arithmetic_rows());
    let m = insert_rows(m, assignment_rows());
    let m = insert_rows(m, trigonometry_rows());
    let m = insert_rows(m, calculus_rows());
    let m = insert_rows(m, algebra_rows());
    let m = insert_rows(m, matrix_rows());
    let m = insert_rows(m, sets_rows());
    let m = insert_rows(m, number_theory_rows());
    let m = insert_rows(m, special_rows());
    let m = insert_rows(m, control_rows());
    let m = insert_rows(m, display_rows());
    insert_rows(m, system_rows())
}

/// The built-in constants.
pub open spec fn builtin_constants() -> Map<Seq<char>, DocEntryView> {
    insert_rows(Map::empty(), constants_rows())
}

/// The keywords of the language.
pub open spec fn builtin_keywords() -> Seq<Seq<char>> {
    seq![
        "if"@, "then"@, "else"@, "elseif"@, "for"@, "do"@, "while"@, "unless"@, "in"@, "step"@,
        "next"@, "thru"@, "block"@, "lambda"@, "not"@, "and"@, "or"@,
    ]
}

/// The operators of the language.
pub open spec fn builtin_operators() -> Seq<Seq<char>> {
    seq![
        "+"@, "-"@, "*"@, "/"@, "^"@, "^^"@, "."@, "@"@, "="@, "#"@, "<"@, ">"@, "<="@, ">="@,
        ":"@, "::"@, ":="@, "::="@, "'"@, "''"@, "!"@, "!!"@,
    ]
}

/// Inserts one documentation entry per row, in order.
pub fn add_rows(m: &mut NameMap<DocEntry>, rows: &Vec<Row>)
    ensures
        entry_views(final(m).map()) == insert_rows(entry_views(old(m).map()), row_views(rows@)),
{
    let mut i: usize = 0;
    while i < rows.len()
        invariant
            i <= rows@.len(),
            entry_views(m.map()) == insert_rows(
                entry_views(old(m).map()),
                row_views(rows@).subrange(0, i as int),
            ),
        decreases rows@.len() - i,
    {
        let r = rows[i];
        let e = DocEntry {
            signature: String::from_str(r.1),
            doc: String::from_str(r.2),
            params: Vec::new(),
            return_doc: String::new(),
            examples: Vec::new(),
            category: String::from_str(r.3),
        };
        assert(string_views(e.params@) =~= Seq::empty());
        assert(string_views(e.examples@) =~= Seq::empty());
        let ghost before = m.map();
        m.insert(String::from_str(r.0), e);
        let ghost sub = row_views(rows@).subrange(0, i + 1);
        assert(sub.drop_last() =~= row_views(rows@).subrange(0, i as int));
        assert(e@ =~= row_entry(sub.last()));
        assert(entry_views(m.map()) =~= entry_views(before).insert(r.0@, e@));
        i = i + 1;
    }
    assert(row_views(rows@).subrange(0, rows@.len() as int) =~= row_views(rows@));
}

/// The built-in documentation: functions, constants, keywords and
/// operators of the language.
pub struct Builtins {
    pub functions: NameMap<DocEntry>,
    pub constants: NameMap<DocEntry>,
    pub keywords: Vec<&'static str>,
    pub operators: Vec<&'static str>,
}

impl Builtins {
    /// The built-in tables.
    #[verifier::rlimit(50)]
    pub fn new() -> (b: Builtins)
        ensures
            entry_views(b.functions.map()) == builtin_functions(),
            entry_views(b.constants.map()) == builtin_constants(),
            str_views(b.keywords@) == builtin_keywords(),
            str_views(b.operators@) == builtin_operators(),
    {
        let mut functions: NameMap<DocEntry> = NameMap::new();
        assert(entry_views(functions.map()) =~= Map::empty());
        add_rows(&mut functions, &arithmetic_table());
        add_rows(&mut functions, &assignment_table());
        add_rows(&mut functions, &trigonometry_table());
        add_rows(&mut functions, &calculus_table());
        add_rows(&mut functions, &algebra_table());
        add_rows(&mut functions, &matrix_table());
        add_rows(&mut functions, &sets_table());
        add_rows(&mut functions, &number_theory_table());
        add_rows(&mut functions, &special_table());
        add_rows(&mut functions, &control_table());
        add_rows(&mut functions, &display_table());
        add_rows(&mut functions, &system_table());
        let mut constants: NameMap<DocEntry> = NameMap::new();
        assert(entry_views(constants.map()) =~= Map::empty());
        add_rows(&mut constants, &constants_table());
        let keywords: Vec<&'static str> = vec![
            "if", "then", "else", "elseif", "for", "do", "while", "unless", "in", "step", "next",
            "thru", "block", "lambda", "not", "and", "or",
        ];
        let operators: Vec<&'static str> = vec![
            "+", "-", "*", "/", "^", "^^", ".", "@", "=", "#", "<", ">", "<=", ">=", ":", "::", ":=",
            "::=", "'", "''", "!", "!!",
        ];
        assert(str_views(keywords@) =~= builtin_keywords());
        assert(str_views(operators@) =~= builtin_operators());
        Builtins { functions, constants, keywords, operators }
    }
}

} // verus!
