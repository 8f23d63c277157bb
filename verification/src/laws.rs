//! Properties of the library that span several functions: the order of
//! lookups, what indexing and forgetting a document do, the resolution
//! cache, the import walk, positions, load targets and snippets.

use vstd::prelude::*;
use crate::db::{
    definition, document_entry, documents_listed, indexed_document, lookup, other_entry, user_entry,
    DatabaseView,
};
use crate::definitions::{load_argument, named_child_of, named_count, named_index};
use crate::docs::snippet_text;
use crate::docstring::external_entry;
use crate::handlers::{byte_len, hover_markdown, items_text, position_byte, symbol_scan, symbols_of, SymbolView};
use crate::docs::DocEntryView;
use crate::imports::{
    call_name_of, import_of_call, import_scan,
    holds_path, load_target, load_target_from, walk_answered, walk_measure, walk_next, with_found, WalkView,
};
use crate::paths::{existing_candidates, file_candidates, initial_tasks, stem_of, AnswerView, TaskView};
use crate::pathname::join_spec;
use crate::lsp::Position;
use crate::paths::{cache_key, next_of, remembered, start_search, PathResolverView, PathSearchView, StepView};
use crate::syntax::SyntaxNode;
use crate::docstring::{after, comment_body, doc_step, parse_lines, parsed_comment, ParsedDocView};
use crate::text::{lines, starts_with, trim};

verus! {

/// Documentation of the init file wins: a name the init file documents is
/// looked up there, whatever the documents and built-ins say.
pub proof fn init_functions_come_first(db: DatabaseView, name: Seq<char>, uri: Seq<char>)
    requires
        db.init_functions.contains_key(name),
    ensures
        lookup(db, name, uri) == Some(external_entry(db.init_functions[name])),
{
}

/// A name that document `uri` defines, and that neither the init file nor
/// the document's imported documentation describes, is shown as a
/// user-defined name in that document.
pub proof fn own_definition_is_user_entry(db: DatabaseView, name: Seq<char>, uri: Seq<char>)
    requires
        !db.init_functions.contains_key(name),
        db.documents.contains_key(uri),
        !db.documents[uri].external_docs.contains_key(name),
        db.documents[uri].definitions.contains_key(name),
    ensures
        lookup(db, name, uri) == Some(user_entry(name)),
{
}

/// Built-in documentation is the fallback: a built-in function that
/// nothing open documents or defines is shown with its built-in entry.
pub proof fn builtins_are_the_fallback(db: DatabaseView, name: Seq<char>, uri: Seq<char>)
    requires
        !db.init_functions.contains_key(name),
        !db.documents.contains_key(uri) || document_entry(db.documents[uri], name) is None,
        forall|u: Seq<char>| #[trigger] db.documents.contains_key(u) ==> document_entry(db.documents[u], name) is None,
        forall|i: int| 0 <= i < db.uris.len() ==> #[trigger] db.documents.contains_key(db.uris[i]),
        db.builtin_functions.contains_key(name),
    ensures
        lookup(db, name, uri) == Some(db.builtin_functions[name]),
{
    assert(other_entry(db, name, uri, db.uris.len() as int) is None) by {
        lemma_no_other_entry(db, name, uri, db.uris.len() as int);
    }
}

proof fn lemma_no_other_entry(db: DatabaseView, name: Seq<char>, uri: Seq<char>, upto: int)
    requires
        upto <= db.uris.len(),
        forall|u: Seq<char>| #[trigger] db.documents.contains_key(u) ==> document_entry(db.documents[u], name) is None,
        forall|i: int| 0 <= i < db.uris.len() ==> #[trigger] db.documents.contains_key(db.uris[i]),
    ensures
        other_entry(db, name, uri, upto) is None,
    decreases upto,
{
    if upto > 0 {
        lemma_no_other_entry(db, name, uri, upto - 1);
        assert(db.documents.contains_key(db.uris[upto - 1]));
    }
}

/// Go-to-definition after indexing: once document `uri` is indexed from its
/// tree, a name its own tree defines, and that the init file does not,
/// leads to the document's own definition, before any imported one.
pub proof fn indexed_definition_is_found(
    db: DatabaseView,
    uri: Seq<char>,
    text: Seq<char>,
    version: i32,
    tree: SyntaxNode,
    walk: WalkView,
    name: Seq<char>,
)
    requires
        db.documents.contains_key(uri),
        indexed_document(uri, text, version, tree, walk, db.documents[uri]),
        crate::definitions::definitions_in(vstd::utf8::encode_utf8(text), uri, crate::syntax::tour(tree)).contains_key(name),
        !db.init_definitions.contains_key(name),
    ensures
        definition(db, name, uri) == Some(
            crate::definitions::definitions_in(vstd::utf8::encode_utf8(text), uri, crate::syntax::tour(tree))[name],
        ),
{
}

/// Forgetting a document: after `remove`, the index holds no document
/// under that URI, and every other document is kept.
pub proof fn removed_document_is_gone(before: DatabaseView, after: DatabaseView, uri: Seq<char>, other: Seq<char>)
    requires
        after.documents == before.documents.remove(uri),
        other != uri,
    ensures
        !after.documents.contains_key(uri),
        after.documents.contains_key(other) == before.documents.contains_key(other),
        before.documents.contains_key(other) ==> after.documents[other] == before.documents[other],
{
}

/// The resolution cache: once a finished search has found a path and the
/// resolver has remembered it, a new search for the same name, version and
/// directory is answered at once, with that path, or with the one the
/// resolver had already remembered for them (which a search started from
/// that resolver finds itself).
pub proof fn remembered_path_answers_again(
    r: PathResolverView,
    s: PathSearchView,
    package: Seq<char>,
    version: Option<Seq<char>>,
    base: Seq<char>,
    p: Seq<char>,
)
    requires
        s.outcome == Some(Some(p)),
        s.key == cache_key(base, package, version),
    ensures
        !r.cache.contains_key(s.key) ==> start_search(remembered(r, s), package, version, base).outcome
            == Some(Some(p)),
        r.cache.contains_key(s.key) ==> start_search(remembered(r, s), package, version, base).outcome
            == Some(Some(r.cache[s.key])),
        r.cache.contains_key(s.key) ==> start_search(r, package, version, base).outcome == Some(
            Some(r.cache[s.key]),
        ),
{
}

/// The resolvers after remembering the searches `ss`, in order.
pub open spec fn remembered_all(r: PathResolverView, ss: Seq<PathSearchView>) -> PathResolverView
    decreases ss.len(),
{
    if ss.len() == 0 {
        r
    } else {
        remembered(remembered_all(r, ss.drop_last()), ss.last())
    }
}

/// The resolution cache keeps what it found: once the resolver remembers
/// path `p` for a name, version and directory, a search for them finds `p`
/// at once, whatever searches are remembered afterwards.
pub proof fn remembered_path_stays(
    r: PathResolverView,
    ss: Seq<PathSearchView>,
    package: Seq<char>,
    version: Option<Seq<char>>,
    base: Seq<char>,
    p: Seq<char>,
)
    requires
        r.cache.contains_key(cache_key(base, package, version)),
        r.cache[cache_key(base, package, version)] == p,
    ensures
        remembered_all(r, ss).cache.contains_key(cache_key(base, package, version)),
        remembered_all(r, ss).cache[cache_key(base, package, version)] == p,
        start_search(remembered_all(r, ss), package, version, base).outcome == Some(Some(p)),
    decreases ss.len(),
{
    if ss.len() > 0 {
        remembered_path_stays(r, ss.drop_last(), package, version, base, p);
    }
}

/// With each open document listed once, a name has no documentation
/// exactly when the init file, every open document and the built-in tables
/// all lack it.
pub proof fn lookup_fails_exactly_when_unknown(db: DatabaseView, name: Seq<char>, uri: Seq<char>)
    requires
        documents_listed(db),
    ensures
        lookup(db, name, uri) is None <==> (!db.init_functions.contains_key(name) && (forall|k: Seq<char>|
            db.documents.contains_key(k) ==> #[trigger] document_entry(db.documents[k], name) is None)
            && !db.builtin_functions.contains_key(name) && !db.builtin_constants.contains_key(name)),
{
    lemma_other_entry_none(db, name, uri, db.uris.len() as int);
    if lookup(db, name, uri) is None {
        assert forall|k: Seq<char>| db.documents.contains_key(k) implies #[trigger] document_entry(
            db.documents[k],
            name,
        ) is None by {
            if k != uri {
                let j = choose|j: int| 0 <= j < db.uris.len() && db.uris[j] == k;
                assert(db.uris[j] == k);
            }
        }
    }
}

/// No document among the first `m` listed, other than `uri`, gives an
/// entry for `name` exactly when `other_entry` finds none.
proof fn lemma_other_entry_none(db: DatabaseView, name: Seq<char>, uri: Seq<char>, m: int)
    requires
        0 <= m <= db.uris.len(),
    ensures
        other_entry(db, name, uri, m) is None <==> forall|j: int|
            0 <= j < m && db.uris[j] != uri ==> #[trigger] document_entry(db.documents[db.uris[j]], name) is None,
    decreases m,
{
    if m > 0 {
        lemma_other_entry_none(db, name, uri, m - 1);
    }
}

/// A finished search stays finished: asking it for its next step changes
/// nothing and gives its result again.
pub proof fn finished_search_is_stable(s: PathSearchView, o: Option<Seq<char>>)
    requires
        s.outcome == Some(o),
    ensures
        next_of(s) == (s, StepView::Done(o)),
{
}

/// Every path an import walk finds is listed once, no two of them naming
/// the same path (as `a/./b` and `a/b` do), and the files queued to be read
/// are found paths, each queued once.
pub open spec fn walk_consistent(w: WalkView) -> bool {
    &&& forall|i: int, j: int|
        0 <= i < j < w.seen.len() ==> crate::pathname::components(#[trigger] w.seen[i])
            != crate::pathname::components(#[trigger] w.seen[j])
    &&& w.queue.no_duplicates()
    &&& forall|i: int| 0 <= i < w.queue.len() ==> w.seen.contains(#[trigger] w.queue[i])
}

proof fn found_keeps_consistency(w: WalkView, o: Option<Seq<char>>)
    requires
        walk_consistent(w),
    ensures
        walk_consistent(with_found(w, o)),
{
    if let Some(p) = o {
        if !crate::imports::holds_path(w.seen, p) {
            if w.seen.contains(p) {
                let k = choose|k: int| 0 <= k < w.seen.len() && w.seen[k] == p;
                assert(crate::pathname::components(w.seen[k]) == crate::pathname::components(p));
            }
            let w2 = with_found(w, o);
            assert forall|i: int, j: int| 0 <= i < j < w2.seen.len() implies crate::pathname::components(
                #[trigger] w2.seen[i],
            ) != crate::pathname::components(#[trigger] w2.seen[j]) by {
                if j == w.seen.len() {
                    assert(w2.seen[i] == w.seen[i]);
                    assert(crate::pathname::components(w.seen[i]) != crate::pathname::components(p));
                } else {
                    assert(w2.seen[i] == w.seen[i] && w2.seen[j] == w.seen[j]);
                }
            }
            assert(w2.queue.no_duplicates()) by {
                assert forall|i: int, j: int| 0 <= i < w2.queue.len() && 0 <= j < w2.queue.len() && i != j implies w2.queue[i] != w2.queue[j] by {
                    if i == w.queue.len() {
                        assert(w.seen.contains(w.queue[j]));
                    } else if j == w.queue.len() {
                        assert(w.seen.contains(w.queue[i]));
                    }
                }
            }
            assert forall|i: int| 0 <= i < w2.queue.len() implies w2.seen.contains(#[trigger] w2.queue[i]) by {
                if i == w.queue.len() {
                    assert(w2.seen[w.seen.len() as int] == p);
                } else {
                    assert(w.seen.contains(w.queue[i]));
                    let k = choose|k: int| 0 <= k < w.seen.len() && w.seen[k] == w.queue[i];
                    assert(w2.seen[k] == w.queue[i]);
                }
            }
        }
    }
}

/// An import walk reads each file at most once: every step keeps the
/// paths it found distinct and its queue made of found paths, each queued
/// once, so a path read off the queue is never queued again.
pub proof fn walk_reads_each_file_once(w: WalkView, r: PathResolverView)
    requires
        walk_consistent(w),
    ensures
        walk_consistent(walk_next(w, r).0),
    decreases walk_measure(w),
{
    match w.search {
        Some(s) => {
            let (s2, step) = next_of(s);
            match step {
                StepView::Probe(_) => {},
                StepView::Done(o) => {
                    let w1 = WalkView { search: None, found: w.found.push((s2.key, o)), ..w };
                    found_keeps_consistency(w1, o);
                    walk_reads_each_file_once(with_found(w1, o), remembered(r, s2));
                },
            }
        },
        None => {
            if 0 <= w.next < w.specs.len() {
                let spec = w.specs[w.next];
                walk_reads_each_file_once(
                    WalkView {
                        search: Some(start_search(r, spec.package, spec.version, w.dir)),
                        next: w.next + 1,
                        ..w
                    },
                    r,
                );
            } else if w.follow && w.reading is None && w.queue.len() > 0 {
                let w2 = walk_next(w, r).0;
                assert(w2.queue =~= w.queue.drop_last());
                assert forall|i: int| 0 <= i < w2.queue.len() implies w2.seen.contains(#[trigger] w2.queue[i]) by {
                    assert(w2.queue[i] == w.queue[i]);
                }
            }
        },
    }
}

/// The paths that the finished searches `found` found, in order, each once:
/// a path that is the same path as one listed before is left out.
pub open spec fn found_paths(found: Seq<(Seq<char>, Option<Seq<char>>)>) -> Seq<Seq<char>>
    decreases found.len(),
{
    if found.len() == 0 {
        Seq::empty()
    } else {
        let prev = found_paths(found.drop_last());
        match found.last().1 {
            Some(p) => if holds_path(prev, p) {
                prev
            } else {
                prev.push(p)
            },
            None => prev,
        }
    }
}

/// What a walk that finds imports without following them keeps true: it
/// has run one search for each import before the next, in order, each for
/// that import's name and version from the base directory, and it lists
/// the paths those searches found, in order, each once.
pub open spec fn finding_in_order(w: WalkView) -> bool {
    &&& !w.follow
    &&& w.seen == found_paths(w.found)
    &&& w.dir == w.base_dir
    &&& w.reading is None
    &&& 0 <= w.next <= w.specs.len()
    &&& w.found.len() == w.next - (if w.search is Some {
        1int
    } else {
        0int
    })
    &&& forall|i: int|
        0 <= i < w.found.len() ==> #[trigger] w.found[i].0 == cache_key(
            w.base_dir,
            w.specs[i].package,
            w.specs[i].version,
        )
    &&& w.search matches Some(s) ==> s.key == cache_key(
        w.base_dir,
        w.specs[w.next - 1].package,
        w.specs[w.next - 1].version,
    )
}

/// Finding imports starts in order: a walk that does not follow imports,
/// as `find_imports` starts it, has run no search and lists nothing.
pub proof fn finding_starts_in_order(w: WalkView)
    requires
        !w.follow,
        w.next == 0,
        w.search is None,
        w.reading is None,
        w.seen.len() == 0,
        w.found.len() == 0,
        w.dir == w.base_dir,
    ensures
        finding_in_order(w),
{
    assert(w.seen =~= found_paths(w.found));
}

/// Finding imports stays in order through each step, and answering a
/// probe: the imports are searched one after the other and each path found
/// is listed once, in the order found. When the walk reports that it is
/// done, it has run exactly one search per import, so it lists the paths
/// the imports resolve to, in order, each once.
pub proof fn finding_imports_in_order(w: WalkView, r: PathResolverView, a: AnswerView)
    requires
        finding_in_order(w),
    ensures
        finding_in_order(walk_next(w, r).0),
        walk_next(w, r).0.specs == w.specs,
        walk_next(w, r).2 is Done ==> walk_next(w, r).0.search is None && walk_next(w, r).0.found.len()
            == w.specs.len(),
        finding_in_order(walk_answered(w, a)),
        walk_answered(w, a).specs == w.specs,
    decreases walk_measure(w),
{
    match w.search {
        Some(s) => {
            let (s2, step) = next_of(s);
            match step {
                StepView::Probe(_) => {},
                StepView::Done(o) => {
                    let w1 = WalkView { search: None, found: w.found.push((s2.key, o)), ..w };
                    let w2 = with_found(w1, o);
                    assert(w1.found.drop_last() =~= w.found);
                    assert(w2.seen == found_paths(w2.found));
                    assert forall|i: int| 0 <= i < w2.found.len() implies #[trigger] w2.found[i].0 == cache_key(
                        w2.base_dir,
                        w2.specs[i].package,
                        w2.specs[i].version,
                    ) by {
                        if i < w.found.len() {
                            assert(w2.found[i] == w.found[i]);
                        }
                    }
                    finding_imports_in_order(w2, remembered(r, s2), a);
                },
            }
        },
        None => {
            if 0 <= w.next < w.specs.len() {
                let spec = w.specs[w.next];
                finding_imports_in_order(
                    WalkView {
                        search: Some(start_search(r, spec.package, spec.version, w.dir)),
                        next: w.next + 1,
                        ..w
                    },
                    r,
                    a,
                );
            }
        },
    }
}

/// Taking in a file keeps the walk consistent.
pub proof fn absorbing_keeps_reads_unique(
    w: WalkView,
    path: Seq<char>,
    docs: Map<Seq<char>, crate::docstring::ExternalDocView>,
    defs: Map<Seq<char>, crate::lsp::LocationView>,
    subs: Seq<crate::imports::ImportSpecView>,
)
    requires
        walk_consistent(w),
    ensures
        walk_consistent(crate::imports::absorbed(w, path, docs, defs, subs)),
{
}

/// A position names a byte of the text or its end, never beyond it.
pub proof fn position_lies_in_text(s: Seq<char>, pos: Position)
    ensures
        position_byte(s, pos) matches Some(b) ==> 0 <= b <= byte_len(s),
{
    if let Some(i) = crate::handlers::line_start_from(s, 0, 0, pos.line as int) {
        lemma_line_start_bounds(s, 0, 0, pos.line as int);
        crate::handlers::lemma_byte_len_prefix(s, i);
    }
}

proof fn lemma_line_start_bounds(s: Seq<char>, i: int, line: int, target: int)
    ensures
        crate::handlers::line_start_from(s, i, line, target) matches Some(k) ==> 0 <= k < s.len(),
    decreases s.len() - i,
{
    if 0 <= i < s.len() && line != target {
        lemma_line_start_bounds(
            s,
            i + 1,
            if s[i] == '\n' {
                line + 1
            } else {
                line
            },
            target,
        );
    }
}

/// The module a load argument names is never empty.
pub proof fn load_argument_is_not_empty(src: Seq<u8>, n: SyntaxNode)
    ensures
        load_argument(src, n) matches Some(t) ==> t.len() > 0,
    decreases n,
{
    if n.kind@ == "atom"@ {
        if let Some(k) = crate::definitions::named_index(n.children@, 0) {
            if 0 <= k < n.children@.len() {
                load_argument_is_not_empty(src, n.children@[k]);
            }
        }
    }
}

/// The module under a position inside a loading call is never empty.
pub proof fn load_target_is_not_empty(src: Seq<u8>, root: SyntaxNode, byte: int)
    ensures
        load_target(src, root, byte) matches Some(t) ==> t.0.len() > 0,
{
    let p = crate::definitions::descent(root, byte);
    lemma_load_target_from(src, p, p.len() - 1, byte);
}

proof fn lemma_load_target_from(src: Seq<u8>, p: Seq<SyntaxNode>, k: int, byte: int)
    ensures
        load_target_from(src, p, k, byte) matches Some(t) ==> t.0.len() > 0,
    decreases k + 1,
{
    if 0 <= k < p.len() {
        let n = p[k];
        load_argument_is_not_empty(src, n);
        lemma_import_package_not_empty(src, n);
        lemma_load_target_from(src, p, k - 1, byte);
    }
}

proof fn lemma_import_package_not_empty(src: Seq<u8>, n: SyntaxNode)
    ensures
        crate::imports::import_of_call(src, n) matches Some(s) ==> s.package.len() > 0,
{
    lemma_scan_package(src, n, crate::definitions::named_count(n.children@) as int);
}

proof fn lemma_scan_package(src: Seq<u8>, n: SyntaxNode, upto: int)
    ensures
        crate::imports::import_scan(src, n, upto).0 matches Some(p) ==> p.len() > 0,
    decreases upto,
{
    if upto > 1 {
        lemma_scan_package(src, n, upto - 1);
        if let Some(ch) = crate::definitions::named_child_of(n, upto - 1) {
            load_argument_is_not_empty(src, ch);
        }
    }
}

/// A completion snippet starts with the name it completes.
pub proof fn snippet_starts_with_name(sig: Seq<char>, name: Seq<char>)
    ensures
        snippet_text(sig, name).len() >= name.len(),
        snippet_text(sig, name).subrange(0, name.len() as int) == name,
{
    let s = snippet_text(sig, name);
    assert(s.subrange(0, name.len() as int) =~= name);
}

/// The examples of a documentation comment are exactly its `@example`
/// lines, in order: each line that, trimmed, starts with `@example` gives
/// one example, the rest of that line trimmed, and no other line gives one.
pub proof fn examples_are_the_example_lines(c: Seq<char>)
    ensures
        parsed_comment(c).examples == lines(comment_body(c)).map_values(|l: Seq<char>| trim(l)).filter(
            |t: Seq<char>| starts_with(t, "@example"@),
        ).map_values(|t: Seq<char>| trim(after(t, 8))),
        parsed_comment(c).examples.len() == lines(comment_body(c)).map_values(|l: Seq<char>| trim(l)).filter(
            |t: Seq<char>| starts_with(t, "@example"@),
        ).len(),
{
    lemma_examples_of_lines(lines(comment_body(c)));
}

proof fn lemma_examples_of_lines(ls: Seq<Seq<char>>)
    ensures
        parse_lines(ls).examples == ls.map_values(|l: Seq<char>| trim(l)).filter(
            |t: Seq<char>| starts_with(t, "@example"@),
        ).map_values(|t: Seq<char>| trim(after(t, 8))),
    decreases ls.len(),
{
    let f = |l: Seq<char>| trim(l);
    let pr = |t: Seq<char>| starts_with(t, "@example"@);
    let g = |t: Seq<char>| trim(after(t, 8));
    if ls.len() == 0 {
        assert(ls.map_values(f) =~= Seq::<Seq<char>>::empty());
        reveal(Seq::filter);
        assert(ls.map_values(f).filter(pr).map_values(g) =~= Seq::<Seq<char>>::empty());
    } else {
        let prev = ls.drop_last();
        lemma_examples_of_lines(prev);
        let ms = ls.map_values(f);
        assert(ms.drop_last() =~= prev.map_values(f));
        assert(ms.last() == trim(ls.last()));
        reveal(Seq::filter);
        assert(ms.filter(pr) == (if pr(ms.last()) {
            ms.drop_last().filter(pr).push(ms.last())
        } else {
            ms.drop_last().filter(pr)
        }));
        let t = trim(ls.last());
        lemma_example_line_kinds(t);
        let d = parse_lines(prev);
        assert(parse_lines(ls) == doc_step(d, t));
        if pr(t) {
            assert(ms.filter(pr).map_values(g) =~= prev.map_values(f).filter(pr).map_values(g).push(g(t)));
        } else {
            assert(ms.filter(pr).map_values(g) =~= prev.map_values(f).filter(pr).map_values(g));
        }
    }
}

/// A line that starts with `@example` starts with no other tag, and a line
/// that does not keeps the examples as they are.
proof fn lemma_example_line_kinds(t: Seq<char>)
    ensures
        starts_with(t, "@example"@) ==> !starts_with(t, "@param"@) && !starts_with(t, "@returns"@)
            && !starts_with(t, "@return"@),
        forall|d: ParsedDocView| #[trigger] doc_step(d, t).examples == (if starts_with(t, "@example"@) {
            d.examples.push(trim(after(t, 8)))
        } else {
            d.examples
        }),
{
    reveal_strlit("@example");
    reveal_strlit("@param");
    reveal_strlit("@returns");
    reveal_strlit("@return");
    if starts_with(t, "@example"@) {
        assert(t[1] == 'e') by {
            assert(t.subrange(0, 8)[1] == "@example"@[1]);
        }
        if starts_with(t, "@param"@) {
            assert(t.subrange(0, 6)[1] == 'p');
        }
        if starts_with(t, "@return"@) {
            assert(t.subrange(0, 7)[1] == 'r');
        }
        if starts_with(t, "@returns"@) {
            assert(t.subrange(0, 8)[1] == 'r');
        }
    }
}

/// Whenever a documentation entry has parameters, its hover text shows them
/// all: the Parameters heading, then one `- p` line for each parameter `p`,
/// in order.
pub proof fn hover_lists_every_parameter(name: Seq<char>, e: DocEntryView)
    requires
        e.params.len() > 0,
    ensures
        exists|before: Seq<char>, rest: Seq<char>|
            #![trigger before + "\n---\n**Parameters:**\n"@, rest + "\n"@]
            hover_markdown(name, e) == before + "\n---\n**Parameters:**\n"@ + e.params.map_values(
                |p: Seq<char>| "- "@ + p + "\n"@,
            ).flatten() + rest,
{
    lemma_bullets(e.params);
    let before = "**"@ + name + "**  \u{b7}  "@ + e.category + "\n\n"@ + "`"@ + e.signature + "`\n\n"@ + e.doc
        + "\n"@;
    let rest = (if e.return_doc.len() > 0 && e.return_doc != name {
        "\n**Returns:** "@ + e.return_doc + "\n"@
    } else {
        Seq::empty()
    }) + (if e.examples.len() > 0 {
        "\n**Examples:**\n"@ + items_text("```maxima\n"@, e.examples, "\n```\n"@)
    } else {
        Seq::empty()
    });
    let block = e.params.map_values(|p: Seq<char>| "- "@ + p + "\n"@).flatten();
    assert(hover_markdown(name, e) =~= before + "\n---\n**Parameters:**\n"@ + block + rest);
    let _t1 = before + "\n---\n**Parameters:**\n"@;
    let _t2 = rest + "\n"@;
}

/// The bullet lines of a list are its items, each after `- ` and before a
/// line break, one after the other.
proof fn lemma_bullets(ps: Seq<Seq<char>>)
    ensures
        items_text("- "@, ps, "\n"@) == ps.map_values(|p: Seq<char>| "- "@ + p + "\n"@).flatten(),
    decreases ps.len(),
{
    let f = |p: Seq<char>| "- "@ + p + "\n"@;
    if ps.len() == 0 {
        assert(ps.map_values(f) =~= Seq::<Seq<char>>::empty());
    } else {
        lemma_bullets(ps.drop_last());
        assert(ps.map_values(f) =~= ps.drop_last().map_values(f).push(f(ps.last())));
        ps.drop_last().map_values(f).lemma_flatten_push(f(ps.last()));
        assert(items_text("- "@, ps, "\n"@) =~= ps.map_values(f).flatten());
    }
}

/// A versioned import, with a maxpack root, tries the package's files for
/// that version: `init.mac`, then `<package>.mac`, then `init.lisp`, all
/// under `<root>/<package>/<version>/src`, where `<package>` is the last
/// component of the trimmed name. (The search's tasks form a stack: the
/// last is tried first.)
pub proof fn versioned_import_tries_package_files(
    r: PathResolverView,
    name: Seq<char>,
    v: Seq<char>,
    base: Seq<char>,
    root: Seq<char>,
)
    requires
        r.maxpack_root == Some(root),
        !r.cache.contains_key(cache_key(base, name, Some(v))),
        trim(name).len() > 0,
    ensures
        ({
            let stem = stem_of(trim(name));
            let src = join_spec(join_spec(join_spec(root, stem), v), "src"@);
            let ts = start_search(r, name, Some(v), base).tasks;
            exists|i: int, j: int, k: int|
                #![trigger ts[i], ts[j], ts[k]]
                0 <= k < j < i < ts.len() && ts[i] == TaskView::File(join_spec(src, "init.mac"@)) && ts[j]
                    == TaskView::File(join_spec(src, stem + ".mac"@)) && ts[k] == TaskView::File(
                    join_spec(src, "init.lisp"@),
                )
        }),
{
    let t = trim(name);
    let stem = stem_of(t);
    let src = join_spec(join_spec(join_spec(root, stem), v), "src"@);
    let fc = file_candidates(r, name, Some(v), base);
    let off: int = existing_candidates(t, base).len() + (if stem != t {
        existing_candidates(stem, base).len() as int
    } else {
        0int
    });
    assert(fc[off] == join_spec(src, "init.mac"@));
    assert(fc[off + 1] == join_spec(src, stem + ".mac"@));
    assert(fc[off + 2] == join_spec(src, "init.lisp"@));
    let init = initial_tasks(r, name, Some(v), base);
    assert(init[off] == TaskView::File(join_spec(src, "init.mac"@)));
    assert(init[off + 1] == TaskView::File(join_spec(src, stem + ".mac"@)));
    assert(init[off + 2] == TaskView::File(join_spec(src, "init.lisp"@)));
    let ts = start_search(r, name, Some(v), base).tasks;
    assert(ts == init.reverse());
    let n: int = init.len() as int;
    assert(ts[n - 1 - off] == init[off]);
    assert(ts[n - 2 - off] == init[off + 1]);
    assert(ts[n - 3 - off] == init[off + 2]);
}

/// Every tag match whose name capture has a non-empty text gives exactly
/// one document symbol, whatever its kind (function or variable), in the
/// order of the matches; a match that names nothing gives none. So there
/// are as many symbols as matches that name one.
pub proof fn every_named_match_gives_a_symbol(src: Seq<u8>, ms: Seq<Vec<(String, SyntaxNode)>>)
    ensures
        symbols_of(src, ms) == ms.map_values(|m: Vec<(String, SyntaxNode)>| symbol_scan(src, m@)).filter(
            |st: SymbolView| st.name.len() > 0,
        ),
    decreases ms.len(),
{
    let f = |m: Vec<(String, SyntaxNode)>| symbol_scan(src, m@);
    let pr = |st: SymbolView| st.name.len() > 0;
    reveal(Seq::filter);
    if ms.len() == 0 {
        assert(ms.map_values(f) =~= Seq::<SymbolView>::empty());
    } else {
        every_named_match_gives_a_symbol(src, ms.drop_last());
        let vs = ms.map_values(f);
        assert(vs.drop_last() =~= ms.drop_last().map_values(f));
        assert(vs.last() == symbol_scan(src, ms.last()@));
    }
}

/// A call of `load`, `batch`, `batchload` or `import` whose first argument
/// names a module is an import of that module.
pub proof fn loading_calls_are_imports(src: Seq<u8>, n: SyntaxNode, module: Seq<char>)
    requires
        call_name_of(src, n) == Some("load"@) || call_name_of(src, n) == Some("batch"@) || call_name_of(src, n)
            == Some("batchload"@) || call_name_of(src, n) == Some("import"@),
        named_child_of(n, 1) matches Some(a) && load_argument(src, a) == Some(module),
    ensures
        import_of_call(src, n) matches Some(spec) && spec.package == module,
{
    lemma_named_index_below_count(n.children@, 1);
    lemma_first_argument_wins(src, n, module, named_count(n.children@) as int);
}

/// A named child is found only below the number of named children.
proof fn lemma_named_index_below_count(cs: Seq<SyntaxNode>, i: int)
    ensures
        named_index(cs, i) is Some ==> 0 <= i < named_count(cs),
    decreases cs.len(),
{
    if cs.len() > 0 && i >= 0 && !(cs[0].named && i == 0) {
        let t = cs.subrange(1, cs.len() as int);
        let j = if cs[0].named {
            i - 1
        } else {
            i
        };
        lemma_named_index_below_count(t, j);
    }
}

/// Once the first argument names a module, the scan of the arguments keeps
/// it as the package.
proof fn lemma_first_argument_wins(src: Seq<u8>, n: SyntaxNode, module: Seq<char>, upto: int)
    requires
        named_child_of(n, 1) matches Some(a) && load_argument(src, a) == Some(module),
        upto >= 2,
    ensures
        import_scan(src, n, upto).0 == Some(module),
    decreases upto,
{
    if upto > 2 {
        lemma_first_argument_wins(src, n, module, upto - 1);
    } else {
        assert(import_scan(src, n, 1) == (None::<Seq<char>>, None::<Seq<char>>));
    }
}

} // verus!
