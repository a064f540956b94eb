# Stem

Stem is a markup language for documents: one uniform block shape
(`name[props](text)`, `name[props]{ children }`, `@inline[props](text)`)
from which the library renders HTML and Word (`.docx`) output. This
crate is the verified core of the toolchain: the crate verifies as a
whole, and its functions state their results over spec functions of
their inputs. Where a result comes from an outside crate, the contract
says what goes into the call and, as far as the outside source shows
it, what comes back.

## Layout

- `src/ast.rs`, `src/ast_v2.rs` — the document tree (source and cooked
  shapes), spans and diagnostics (`src/span.rs`, `src/diagnostic.rs`).
- `src/theme.rs` — named colors and fonts, with hex color resolution.
- `src/html.rs` — the HTML exporter, specified as a function from the
  document to its markup.
- `src/docx2/` — the direct OOXML writer: every part (document, styles,
  numbering, relationships, content types, footnotes, …) is specified as
  markup, and the body emitters (paragraphs, runs, tables, drawings,
  hyperlinks, fields, table of contents) are proved against it.
- `src/docx/` — the part builders shared by the `.docx` pipeline (page
  geometry, headers and footers, styles with overrides, document
  properties), the table emitter, the XML buffer and ZIP packaging.
- `src/docx_builder.rs` — a second `.docx` path through the `docx-rs`
  builder: blocks are laid out as plain paragraphs and tables, proved
  against their specification, then handed to the builder.
- `app/` — the command-line tool: argument handling, standard I/O and
  image files.
- `tests/` — behaviour tests of the library.

Outside crates are reached only through small trusted functions at the
crate's edges: `zip` in `src/docx/package.rs`, whose archive is named
(`zip_archive`) over the entries written, with the writer's failure
cases stated; `docx-rs` in `src/docx_builder/calls.rs`, where each
builder value is described by what it holds (`run_model`,
`para_model`, …, `docx_model`) and each call states how it changes
that; and the clock in `src/docx/parts/doc_props.rs`.
