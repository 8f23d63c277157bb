# maxima_lsp

A language server for the Maxima computer algebra system, with its core
written in Verus and proved against its contracts.

## Layout

- `src/` — the verified library.
  - `text`, `pathname`, `name_map`: strings, paths and a name-keyed map,
    each modelled by sequences and maps.
  - `syntax`, `parse`: a plain model of syntax trees and the calls into
    tree-sitter that build it.
  - `lisp_extractor`, `docstring`, `definitions`, `imports`: what is read
    out of Maxima and Lisp sources (documentation, definitions, loads).
  - `paths`: how an import is resolved to a file, written as a search that
    asks the caller for file-system facts one probe at a time.
  - `db`, `handlers`, `docs`, `builtin_tables`, `lsp`: the document index and
    the answers to hover, completion, tokens, symbols, go-to-definition and
    edits.
  - `laws`: properties that span several operations.
- `tests/` — tests on concrete inputs.
- `app/` — the server itself: the LSP transport, the file system, running
  Maxima, and the loops that answer the library's probes.
