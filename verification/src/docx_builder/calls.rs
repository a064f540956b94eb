//! The `docx-rs` document builder, as this crate calls it.
//!
//! Each function here makes one builder call and converts its arguments:
//! plain strings and numbers become the builder's small value types
//! (`NumberingId`, `IndentLevel`, `Start`, `NumberFormat`, `LevelText`,
//! `LevelJc`, `Numbering`), and the crate's own enums become the
//! builder's. Each builder value is described by what it holds (its
//! text, properties and children, as given to the builder), and each
//! call states how it changes that.

use vstd::prelude::*;

use crate::docx_builder::{Align, BorderLine, BorderSide, VAlign, VMerge};
use docx_rs::Paragraph as WordParagraph;

verus! {

#[verifier::external_type_specification]
#[verifier::external_body]
pub struct ExDocx(docx_rs::Docx);

#[verifier::external_type_specification]
#[verifier::external_body]
pub struct ExXmlDocx(docx_rs::XMLDocx);

#[verifier::external_type_specification]
#[verifier::external_body]
pub struct ExParagraph(WordParagraph);

#[verifier::external_type_specification]
#[verifier::external_body]
pub struct ExRun(docx_rs::Run);

#[verifier::external_type_specification]
#[verifier::external_body]
pub struct ExRunFonts(docx_rs::RunFonts);

#[verifier::external_type_specification]
#[verifier::external_body]
pub struct ExTableCell(docx_rs::TableCell);

#[verifier::external_type_specification]
#[verifier::external_body]
pub struct ExShading(docx_rs::Shading);

#[verifier::external_type_specification]
#[verifier::external_body]
pub struct ExTableRow(docx_rs::TableRow);

#[verifier::external_type_specification]
#[verifier::external_body]
pub struct ExTable(docx_rs::Table);

#[verifier::external_type_specification]
#[verifier::external_body]
pub struct ExTableBorders(docx_rs::TableBorders);

#[verifier::external_type_specification]
#[verifier::external_body]
pub struct ExTableBorder(docx_rs::TableBorder);

#[verifier::external_type_specification]
#[verifier::external_body]
pub struct ExAbstractNumbering(docx_rs::AbstractNumbering);

#[verifier::external_type_specification]
#[verifier::external_body]
pub struct ExLevel(docx_rs::Level);

// ------------------------------------------------------------------
// What the builder's values hold
// ------------------------------------------------------------------

/// A run's fonts, by name as given.
pub struct WFonts {
    pub ascii: Option<Seq<char>>,
    pub hi_ansi: Option<Seq<char>>,
}

/// A run: its text as given (the builder drops line feeds) and its
/// properties.
pub struct WRun {
    pub text: Seq<char>,
    pub bold: bool,
    pub italic: bool,
    pub strike: bool,
    pub fonts: Option<WFonts>,
}

/// A paragraph: style, left indent, list numbering (id, level),
/// alignment and runs.
pub struct WPara {
    pub style: Option<Seq<char>>,
    pub indent_left: Option<i32>,
    pub numbering: Option<(usize, usize)>,
    pub align: Option<Align>,
    pub runs: Seq<WRun>,
}

/// A shading: whether its pattern is clear, its color and fill.
pub struct WShading {
    pub clear: bool,
    pub color: Seq<char>,
    pub fill: Seq<char>,
}

/// A table cell: its paragraphs and properties.
pub struct WCell {
    pub paras: Seq<WPara>,
    pub vmerge: Option<VMerge>,
    pub grid_span: Option<usize>,
    pub valign: Option<VAlign>,
    pub shading: Option<WShading>,
}

/// One border line of a table.
pub struct WBorder {
    pub side: BorderSide,
    pub line: BorderLine,
    pub size: usize,
    pub color: Seq<char>,
}

/// The six borders of a table, each set or not.
pub struct WBorders {
    pub top: Option<WBorder>,
    pub bottom: Option<WBorder>,
    pub left: Option<WBorder>,
    pub right: Option<WBorder>,
    pub inside_h: Option<WBorder>,
    pub inside_v: Option<WBorder>,
}

/// A table: rows of cells, borders, and whether it is laid out to fit
/// its contents.
pub struct WTable {
    pub rows: Seq<Seq<WCell>>,
    pub borders: WBorders,
    pub autofit: bool,
}

/// A child of the document body.
pub enum WChild {
    Para(WPara),
    Table(WTable),
}

/// A numbering level: level, start, format, text, justification and
/// indents.
pub struct WLevel {
    pub level: usize,
    pub start: usize,
    pub format: Seq<char>,
    pub text: Seq<char>,
    pub jc: Seq<char>,
    pub left: Option<i32>,
    pub hanging: Option<i32>,
}

/// An abstract numbering: its id and levels.
pub struct WAbstract {
    pub id: usize,
    pub levels: Seq<WLevel>,
}

/// A document: its body, abstract numberings, numberings
/// (id, abstract id) and how many custom document properties it has.
pub struct WDocx {
    pub body: Seq<WChild>,
    pub abstracts: Seq<WAbstract>,
    pub nums: Seq<(usize, usize)>,
    pub custom_props: nat,
}

/// What a run holds.
pub uninterp spec fn run_model(r: docx_rs::Run) -> WRun;

/// What a font set holds.
pub uninterp spec fn fonts_model(f: docx_rs::RunFonts) -> WFonts;

/// What a paragraph holds.
pub uninterp spec fn para_model(p: docx_rs::Paragraph) -> WPara;

/// What a shading holds.
pub uninterp spec fn shading_model(s: docx_rs::Shading) -> WShading;

/// What a table cell holds.
pub uninterp spec fn cell_model(c: docx_rs::TableCell) -> WCell;

/// The cells a table row holds.
pub uninterp spec fn row_model(r: docx_rs::TableRow) -> Seq<WCell>;

/// What a table holds.
pub uninterp spec fn table_model(t: docx_rs::Table) -> WTable;

/// What a border set holds.
pub uninterp spec fn borders_model(b: docx_rs::TableBorders) -> WBorders;

/// What a border holds.
pub uninterp spec fn border_model(b: docx_rs::TableBorder) -> WBorder;

/// What a numbering level holds.
pub uninterp spec fn level_model(l: docx_rs::Level) -> WLevel;

/// What an abstract numbering holds.
pub uninterp spec fn abstract_model(a: docx_rs::AbstractNumbering) -> WAbstract;

/// What a document holds.
pub uninterp spec fn docx_model(d: docx_rs::Docx) -> WDocx;

/// Text without its line feeds.
pub open spec fn without_line_feeds(t: Seq<char>) -> Seq<char> {
    t.filter(|c: char| c != '\n')
}

/// The border `TableBorder::new` makes at `side`: single, size 2,
/// black.
pub open spec fn default_border(side: BorderSide) -> WBorder {
    WBorder { side, line: BorderLine::Single, size: 2, color: "000000"@ }
}

/// The borders `TableBorders::new` (and a new table) has: all six,
/// each the default border.
pub open spec fn default_borders() -> WBorders {
    WBorders {
        top: Some(default_border(BorderSide::Top)),
        bottom: Some(default_border(BorderSide::Bottom)),
        left: Some(default_border(BorderSide::Left)),
        right: Some(default_border(BorderSide::Right)),
        inside_h: Some(default_border(BorderSide::InsideH)),
        inside_v: Some(default_border(BorderSide::InsideV)),
    }
}

/// The borders with `b` at `side`.
pub open spec fn set_border(bs: WBorders, side: BorderSide, b: WBorder) -> WBorders {
    match side {
        BorderSide::Top => WBorders { top: Some(b), ..bs },
        BorderSide::Bottom => WBorders { bottom: Some(b), ..bs },
        BorderSide::Left => WBorders { left: Some(b), ..bs },
        BorderSide::Right => WBorders { right: Some(b), ..bs },
        BorderSide::InsideH => WBorders { inside_h: Some(b), ..bs },
        BorderSide::InsideV => WBorders { inside_v: Some(b), ..bs },
    }
}

// ------------------------------------------------------------------
// The document
// ------------------------------------------------------------------

/// `Docx::new`: an empty document with the builder's default parts.
#[verifier::external_body]
pub(crate) fn docx_new() -> (d: docx_rs::Docx)
    ensures
        docx_model(d) == (WDocx { body: Seq::empty(), abstracts: Seq::empty(), nums: Seq::empty(), custom_props: 0 }),
{
    docx_rs::Docx::new()
}

/// `Docx::add_abstract_numbering`: the document with `a` registered.
#[verifier::external_body]
pub(crate) fn docx_add_abstract_numbering(d: docx_rs::Docx, a: docx_rs::AbstractNumbering) -> (r: docx_rs::Docx)
    ensures
        docx_model(r) == (WDocx { abstracts: docx_model(d).abstracts.push(abstract_model(a)), ..docx_model(d) }),
{
    d.add_abstract_numbering(a)
}

/// `Docx::add_numbering` of `Numbering::new(id, abstract_id)`: the
/// document with numbering `id` over abstract numbering `abstract_id`.
#[verifier::external_body]
pub(crate) fn docx_add_numbering(d: docx_rs::Docx, id: usize, abstract_id: usize) -> (r: docx_rs::Docx)
    ensures
        docx_model(r) == (WDocx { nums: docx_model(d).nums.push((id, abstract_id)), ..docx_model(d) }),
{
    d.add_numbering(docx_rs::Numbering::new(id, abstract_id))
}

/// `Docx::add_paragraph`: the document with `p` appended to its body.
#[verifier::external_body]
pub(crate) fn docx_add_paragraph(d: docx_rs::Docx, p: docx_rs::Paragraph) -> (r: docx_rs::Docx)
    ensures
        docx_model(r) == (WDocx { body: docx_model(d).body.push(WChild::Para(para_model(p))), ..docx_model(d) }),
{
    d.add_paragraph(p)
}

/// `Docx::add_table`: the document with `t` appended to its body.
#[verifier::external_body]
pub(crate) fn docx_add_table(d: docx_rs::Docx, t: docx_rs::Table) -> (r: docx_rs::Docx)
    ensures
        docx_model(r) == (WDocx { body: docx_model(d).body.push(WChild::Table(table_model(t))), ..docx_model(d) }),
{
    d.add_table(t)
}

/// The parts a rendered package holds, in the order `XMLDocx::pack`
/// writes them: path and bytes.
pub uninterp spec fn xml_parts(x: docx_rs::XMLDocx) -> Seq<(Seq<char>, Seq<u8>)>;

/// The parts `Docx::build` renders for a document.
pub uninterp spec fn docx_rendered(d: docx_rs::Docx) -> Seq<(Seq<char>, Seq<u8>)>;

/// The archive `XMLDocx::pack` writes for rendered parts into an empty
/// in-memory buffer (fixed entry options, no clock).
pub uninterp spec fn docx_zip(parts: Seq<(Seq<char>, Seq<u8>)>) -> Seq<u8>;

/// `Docx::build`: the document's package parts, rendered. Rendering
/// depends on the document alone, except that custom document
/// properties are written in the order of a hash map; with at most one
/// of them the parts are `docx_rendered(d)`.
#[verifier::external_body]
pub(crate) fn docx_build(d: docx_rs::Docx) -> (x: docx_rs::XMLDocx)
    ensures
        docx_model(d).custom_props <= 1 ==> xml_parts(x) == docx_rendered(d),
{
    d.build()
}

/// `XMLDocx::pack` into an in-memory buffer: on success the archive of
/// the parts; otherwise the `Display` text of the ZIP error. Whether it
/// succeeds is not stated.
#[verifier::external_body]
pub(crate) fn xml_docx_pack(x: docx_rs::XMLDocx) -> (r: Result<Vec<u8>, String>)
    ensures
        r matches Ok(b) ==> b@ == docx_zip(xml_parts(x)),
{
    let mut buf: Vec<u8> = Vec::new();
    match x.pack(std::io::Cursor::new(&mut buf)) {
        Ok(()) => Ok(buf),
        Err(e) => Err(e.to_string()),
    }
}

// ------------------------------------------------------------------
// Paragraphs and runs
// ------------------------------------------------------------------

/// `Paragraph::new`: an empty paragraph.
#[verifier::external_body]
pub(crate) fn paragraph_new() -> (p: docx_rs::Paragraph)
    ensures
        para_model(p) == (WPara { style: None, indent_left: None, numbering: None, align: None, runs: Seq::empty() }),
{
    docx_rs::Paragraph::new()
}

/// `Paragraph::style`: the paragraph in style `style_id`.
#[verifier::external_body]
pub(crate) fn paragraph_style(p: docx_rs::Paragraph, style_id: &str) -> (r: docx_rs::Paragraph)
    ensures
        para_model(r) == (WPara { style: Some(style_id@), ..para_model(p) }),
{
    p.style(style_id)
}

/// `Paragraph::indent(Some(left), None, None, None)`: the paragraph
/// indented `left` dxa from the left.
#[verifier::external_body]
pub(crate) fn paragraph_indent_left(p: docx_rs::Paragraph, left: i32) -> (r: docx_rs::Paragraph)
    ensures
        para_model(r) == (WPara { indent_left: Some(left), ..para_model(p) }),
{
    p.indent(Some(left), None, None, None)
}

/// `Paragraph::numbering(NumberingId::new(id), IndentLevel::new(level))`:
/// the paragraph in list `id` at nesting `level`.
#[verifier::external_body]
pub(crate) fn paragraph_numbering(p: docx_rs::Paragraph, id: usize, level: usize) -> (r: docx_rs::Paragraph)
    ensures
        para_model(r) == (WPara { numbering: Some((id, level)), ..para_model(p) }),
{
    p.numbering(docx_rs::NumberingId::new(id), docx_rs::IndentLevel::new(level))
}

/// `Paragraph::align`: the paragraph with the alignment of the same name
/// (`Justified` for justified).
#[verifier::external_body]
pub(crate) fn paragraph_align(p: docx_rs::Paragraph, a: Align) -> (r: docx_rs::Paragraph)
    ensures
        para_model(r) == (WPara { align: Some(a), ..para_model(p) }),
{
    p.align(
        match a {
            Align::Left => docx_rs::AlignmentType::Left,
            Align::Center => docx_rs::AlignmentType::Center,
            Align::Right => docx_rs::AlignmentType::Right,
            Align::Justified => docx_rs::AlignmentType::Justified,
        },
    )
}

/// `Paragraph::add_run`: the paragraph with `r` appended.
#[verifier::external_body]
pub(crate) fn paragraph_add_run(p: docx_rs::Paragraph, r: docx_rs::Run) -> (q: docx_rs::Paragraph)
    ensures
        para_model(q) == (WPara { runs: para_model(p).runs.push(run_model(r)), ..para_model(p) }),
{
    p.add_run(r)
}

/// `Run::new`: an empty run.
#[verifier::external_body]
pub(crate) fn run_new() -> (r: docx_rs::Run)
    ensures
        run_model(r) == (WRun { text: Seq::empty(), bold: false, italic: false, strike: false, fonts: None }),
{
    docx_rs::Run::new()
}

/// `Run::add_text`: the run with `text` appended.
#[verifier::external_body]
pub(crate) fn run_add_text(r: docx_rs::Run, text: &str) -> (q: docx_rs::Run)
    ensures
        run_model(q) == (WRun { text: run_model(r).text + without_line_feeds(text@), ..run_model(r) }),
{
    r.add_text(text)
}

/// `Run::bold`: the run in bold.
#[verifier::external_body]
pub(crate) fn run_bold(r: docx_rs::Run) -> (q: docx_rs::Run)
    ensures
        run_model(q) == (WRun { bold: true, ..run_model(r) }),
{
    r.bold()
}

/// `Run::italic`: the run in italics.
#[verifier::external_body]
pub(crate) fn run_italic(r: docx_rs::Run) -> (q: docx_rs::Run)
    ensures
        run_model(q) == (WRun { italic: true, ..run_model(r) }),
{
    r.italic()
}

/// `Run::strike`: the run struck through.
#[verifier::external_body]
pub(crate) fn run_strike(r: docx_rs::Run) -> (q: docx_rs::Run)
    ensures
        run_model(q) == (WRun { strike: true, ..run_model(r) }),
{
    r.strike()
}

/// `Run::fonts`: the run in fonts `f`.
#[verifier::external_body]
pub(crate) fn run_fonts(r: docx_rs::Run, f: docx_rs::RunFonts) -> (q: docx_rs::Run)
    ensures
        run_model(q) == (WRun { fonts: Some(fonts_model(f)), ..run_model(r) }),
{
    r.fonts(f)
}

/// `RunFonts::new`: no font set.
#[verifier::external_body]
pub(crate) fn run_fonts_new() -> (f: docx_rs::RunFonts)
    ensures
        fonts_model(f) == (WFonts { ascii: None, hi_ansi: None }),
{
    docx_rs::RunFonts::new()
}

/// `RunFonts::ascii`: the fonts with `name` for ASCII text.
#[verifier::external_body]
pub(crate) fn run_fonts_ascii(f: docx_rs::RunFonts, name: &str) -> (g: docx_rs::RunFonts)
    ensures
        fonts_model(g) == (WFonts { ascii: Some(name@), ..fonts_model(f) }),
{
    f.ascii(name)
}

/// `RunFonts::hi_ansi`: the fonts with `name` for high-ANSI text.
#[verifier::external_body]
pub(crate) fn run_fonts_hi_ansi(f: docx_rs::RunFonts, name: &str) -> (g: docx_rs::RunFonts)
    ensures
        fonts_model(g) == (WFonts { hi_ansi: Some(name@), ..fonts_model(f) }),
{
    f.hi_ansi(name)
}

// ------------------------------------------------------------------
// Tables
// ------------------------------------------------------------------

/// `TableCell::new`: an empty cell.
#[verifier::external_body]
pub(crate) fn table_cell_new() -> (c: docx_rs::TableCell)
    ensures
        cell_model(c) == (WCell { paras: Seq::empty(), vmerge: None, grid_span: None, valign: None, shading: None }),
{
    docx_rs::TableCell::new()
}

/// `TableCell::add_paragraph`: the cell with `p` appended.
#[verifier::external_body]
pub(crate) fn table_cell_add_paragraph(c: docx_rs::TableCell, p: docx_rs::Paragraph) -> (r: docx_rs::TableCell)
    ensures
        cell_model(r) == (WCell { paras: cell_model(c).paras.push(para_model(p)), ..cell_model(c) }),
{
    c.add_paragraph(p)
}

/// `TableCell::vertical_merge`: the cell starting (`Restart`) or
/// continuing (`Continue`) a vertical merge.
#[verifier::external_body]
pub(crate) fn table_cell_vertical_merge(c: docx_rs::TableCell, m: VMerge) -> (r: docx_rs::TableCell)
    ensures
        cell_model(r) == (WCell { vmerge: Some(m), ..cell_model(c) }),
{
    c.vertical_merge(
        match m {
            VMerge::Restart => docx_rs::VMergeType::Restart,
            VMerge::Continue => docx_rs::VMergeType::Continue,
        },
    )
}

/// `TableCell::grid_span`: the cell spanning `n` grid columns.
#[verifier::external_body]
pub(crate) fn table_cell_grid_span(c: docx_rs::TableCell, n: usize) -> (r: docx_rs::TableCell)
    ensures
        cell_model(r) == (WCell { grid_span: Some(n), ..cell_model(c) }),
{
    c.grid_span(n)
}

/// `TableCell::vertical_align`: the cell with the vertical alignment of
/// the same name.
#[verifier::external_body]
pub(crate) fn table_cell_vertical_align(c: docx_rs::TableCell, v: VAlign) -> (r: docx_rs::TableCell)
    ensures
        cell_model(r) == (WCell { valign: Some(v), ..cell_model(c) }),
{
    c.vertical_align(
        match v {
            VAlign::Top => docx_rs::VAlignType::Top,
            VAlign::Center => docx_rs::VAlignType::Center,
            VAlign::Bottom => docx_rs::VAlignType::Bottom,
        },
    )
}

/// `TableCell::shading`: the cell shaded by `s`.
#[verifier::external_body]
pub(crate) fn table_cell_shading(c: docx_rs::TableCell, s: docx_rs::Shading) -> (r: docx_rs::TableCell)
    ensures
        cell_model(r) == (WCell { shading: Some(shading_model(s)), ..cell_model(c) }),
{
    c.shading(s)
}

/// `Shading::new`: the builder's default shading.
#[verifier::external_body]
pub(crate) fn shading_new() -> (s: docx_rs::Shading)
    ensures
        shading_model(s) == (WShading { clear: true, color: "auto"@, fill: "FFFFFF"@ }),
{
    docx_rs::Shading::new()
}

/// `Shading::shd_type(ShdType::Clear)`: a clear pattern.
#[verifier::external_body]
pub(crate) fn shading_clear(s: docx_rs::Shading) -> (r: docx_rs::Shading)
    ensures
        shading_model(r) == (WShading { clear: true, ..shading_model(s) }),
{
    s.shd_type(docx_rs::ShdType::Clear)
}

/// `Shading::color`: the pattern color.
#[verifier::external_body]
pub(crate) fn shading_color(s: docx_rs::Shading, color: &str) -> (r: docx_rs::Shading)
    ensures
        shading_model(r) == (WShading { color: color@, ..shading_model(s) }),
{
    s.color(color)
}

/// `Shading::fill`: the fill color.
#[verifier::external_body]
pub(crate) fn shading_fill(s: docx_rs::Shading, fill: &str) -> (r: docx_rs::Shading)
    ensures
        shading_model(r) == (WShading { fill: fill@, ..shading_model(s) }),
{
    s.fill(fill)
}

/// `TableRow::new`: a row of `cells`.
#[verifier::external_body]
pub(crate) fn table_row_new(cells: Vec<docx_rs::TableCell>) -> (r: docx_rs::TableRow)
    ensures
        row_model(r) == cells@.map_values(|c: docx_rs::TableCell| cell_model(c)),
{
    docx_rs::TableRow::new(cells)
}

/// `Table::new`: a table of `rows`.
#[verifier::external_body]
pub(crate) fn table_new(rows: Vec<docx_rs::TableRow>) -> (t: docx_rs::Table)
    ensures
        table_model(t) == (WTable { rows: rows@.map_values(|r: docx_rs::TableRow| row_model(r)), borders: default_borders(), autofit: false }),
{
    docx_rs::Table::new(rows)
}

/// `Table::set_borders`: the table with borders `b`.
#[verifier::external_body]
pub(crate) fn table_set_borders(t: docx_rs::Table, b: docx_rs::TableBorders) -> (r: docx_rs::Table)
    ensures
        table_model(r) == (WTable { borders: borders_model(b), ..table_model(t) }),
{
    t.set_borders(b)
}

/// `Table::layout(TableLayoutType::Autofit)`: the table laid out to fit
/// its contents.
#[verifier::external_body]
pub(crate) fn table_layout_autofit(t: docx_rs::Table) -> (r: docx_rs::Table)
    ensures
        table_model(r) == (WTable { autofit: true, ..table_model(t) }),
{
    t.layout(docx_rs::TableLayoutType::Autofit)
}

/// `TableBorders::new`: all six borders, single.
#[verifier::external_body]
pub(crate) fn table_borders_new() -> (b: docx_rs::TableBorders)
    ensures
        borders_model(b) == default_borders(),
{
    docx_rs::TableBorders::new()
}

/// `TableBorders::with_empty`: no border set.
#[verifier::external_body]
pub(crate) fn table_borders_with_empty() -> (b: docx_rs::TableBorders)
    ensures
        borders_model(b) == (WBorders { top: None, bottom: None, left: None, right: None, inside_h: None, inside_v: None }),
{
    docx_rs::TableBorders::with_empty()
}

/// `TableBorders::set`: the borders with `b` at its own side.
#[verifier::external_body]
pub(crate) fn table_borders_set(bs: docx_rs::TableBorders, b: docx_rs::TableBorder) -> (r: docx_rs::TableBorders)
    ensures
        borders_model(r) == set_border(borders_model(bs), border_model(b).side, border_model(b)),
{
    bs.set(b)
}

/// `TableBorders::clear`: the borders with `side` set to none.
#[verifier::external_body]
pub(crate) fn table_borders_clear(bs: docx_rs::TableBorders, side: BorderSide) -> (r: docx_rs::TableBorders)
    ensures
        borders_model(r) == set_border(borders_model(bs), side, WBorder { line: BorderLine::Nil, ..default_border(side) }),
{
    bs.clear(
        match side {
            BorderSide::Top => docx_rs::TableBorderPosition::Top,
            BorderSide::Bottom => docx_rs::TableBorderPosition::Bottom,
            BorderSide::Left => docx_rs::TableBorderPosition::Left,
            BorderSide::Right => docx_rs::TableBorderPosition::Right,
            BorderSide::InsideH => docx_rs::TableBorderPosition::InsideH,
            BorderSide::InsideV => docx_rs::TableBorderPosition::InsideV,
        },
    )
}

/// `TableBorder::new`: the builder's default border at `side`.
#[verifier::external_body]
pub(crate) fn table_border_new(side: BorderSide) -> (b: docx_rs::TableBorder)
    ensures
        border_model(b) == default_border(side),
{
    docx_rs::TableBorder::new(
        match side {
            BorderSide::Top => docx_rs::TableBorderPosition::Top,
            BorderSide::Bottom => docx_rs::TableBorderPosition::Bottom,
            BorderSide::Left => docx_rs::TableBorderPosition::Left,
            BorderSide::Right => docx_rs::TableBorderPosition::Right,
            BorderSide::InsideH => docx_rs::TableBorderPosition::InsideH,
            BorderSide::InsideV => docx_rs::TableBorderPosition::InsideV,
        },
    )
}

/// `TableBorder::border_type(BorderType::Single)`: a single line.
#[verifier::external_body]
pub(crate) fn table_border_single(b: docx_rs::TableBorder) -> (r: docx_rs::TableBorder)
    ensures
        border_model(r) == (WBorder { line: BorderLine::Single, ..border_model(b) }),
{
    b.border_type(docx_rs::BorderType::Single)
}

/// `TableBorder::size`: the line width, in eighths of a point.
#[verifier::external_body]
pub(crate) fn table_border_size(b: docx_rs::TableBorder, size: usize) -> (r: docx_rs::TableBorder)
    ensures
        border_model(r) == (WBorder { size, ..border_model(b) }),
{
    b.size(size)
}

/// `TableBorder::color`: the line color.
#[verifier::external_body]
pub(crate) fn table_border_color(b: docx_rs::TableBorder, color: &str) -> (r: docx_rs::TableBorder)
    ensures
        border_model(r) == (WBorder { color: color@, ..border_model(b) }),
{
    b.color(color)
}

// ------------------------------------------------------------------
// List numbering
// ------------------------------------------------------------------

/// `AbstractNumbering::new`: abstract numbering `id`, with no level.
#[verifier::external_body]
pub(crate) fn abstract_numbering_new(id: usize) -> (a: docx_rs::AbstractNumbering)
    ensures
        abstract_model(a) == (WAbstract { id, levels: Seq::empty() }),
{
    docx_rs::AbstractNumbering::new(id)
}

/// `AbstractNumbering::add_level`: the numbering with `l` appended.
#[verifier::external_body]
pub(crate) fn abstract_numbering_add_level(
    a: docx_rs::AbstractNumbering,
    l: docx_rs::Level,
) -> (r: docx_rs::AbstractNumbering)
    ensures
        abstract_model(r) == (WAbstract { levels: abstract_model(a).levels.push(level_model(l)), ..abstract_model(a) }),
{
    a.add_level(l)
}

/// `Level::new(level, Start::new(start), NumberFormat::new(format),
/// LevelText::new(text), LevelJc::new(jc))`.
#[verifier::external_body]
pub(crate) fn level_new(level: usize, start: usize, format: &str, text: &str, jc: &str) -> (l: docx_rs::Level)
    ensures
        level_model(l) == (WLevel { level, start, format: format@, text: text@, jc: jc@, left: None, hanging: None }),
{
    docx_rs::Level::new(
        level,
        docx_rs::Start::new(start),
        docx_rs::NumberFormat::new(format),
        docx_rs::LevelText::new(text),
        docx_rs::LevelJc::new(jc),
    )
}

/// `Level::indent(Some(left), Some(SpecialIndentType::Hanging(hanging)),
/// None, None)`: the level indented `left` dxa with a `hanging` dxa
/// hanging indent.
#[verifier::external_body]
pub(crate) fn level_indent_hanging(l: docx_rs::Level, left: i32, hanging: i32) -> (r: docx_rs::Level)
    ensures
        level_model(r) == (WLevel { left: Some(left), hanging: Some(hanging), ..level_model(l) }),
{
    l.indent(Some(left), Some(docx_rs::SpecialIndentType::Hanging(hanging)), None, None)
}

} // verus!
