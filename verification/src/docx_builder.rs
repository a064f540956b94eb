//! Stem AST → .docx through the `docx-rs` document builder.
//!
//! Scope: headings (h1..h6 mapped to the built-in Word styles
//! Heading1..6), paragraphs, ordered/unordered lists, blockquote, code
//! blocks (Courier New), inline runs with italic/bold/strikethrough, and
//! tables with borders, stripes, header rows, spans, fills and
//! alignment.
//!
//! The document is first laid out as plain values — paragraphs of
//! styled runs, tables of rows of cells — by the functions of this
//! module; [`crate::docx_builder::build`] then hands each value to the
//! builder.

use vstd::prelude::*;

pub mod calls;

use calls::{
    border_model, cell_model, default_border, default_borders, para_model, row_model, run_model,
    table_model, abstract_model, docx_model, docx_rendered, docx_zip, without_line_feeds, WAbstract, WBorder, WBorders, WCell,
    WChild, WDocx, WFonts, WLevel, WPara, WRun, WShading, WTable,
};

use crate::ast_v2::{lookup_str, plain_text_spec, Block, Body, Document, TextPiece};
use crate::docx::emit::table::{
    border_of, cells_of, colspan_exec, colspan_of, dec_carries, dec_slots, gap, kids, left,
    lemma_dec_ok, lemma_place_with_ok, lemma_span_take, lemma_span_take_le, lemma_total_prefix,
    lemma_trim_ok, place_cell_with, place_with, row_width, rowspan_exec, rowspan_of, span_sum,
    stripe_of, table_fits, total_width, trim_carries, trim_tail, carries_ok, cells_and_width,
    border_mode, extend_with, is_header_row, lemma_trim_keeps, table_fits_exec, BorderMode, RowspanCarry,
};
use crate::docx2::emit::prepass::{heading_level, heading_level_of};
use crate::text::{
    dec, lines, lines_spec, push_str, str_eq, to_owned_string, upper_char, views_of,
};
use crate::theme::{color_hex, resolve_color_spec, Theme};

verus! {

// ------------------------------------------------------------------
// The plain layout
// ------------------------------------------------------------------

/// How a run is styled.
#[derive(Clone, Copy, PartialEq, Eq, Structural)]
pub struct RunStyle {
    pub bold: bool,
    pub italic: bool,
    pub strike: bool,
    pub monospace: bool,
}

pub open spec fn plain_style() -> RunStyle {
    RunStyle { bold: false, italic: false, strike: false, monospace: false }
}

impl RunStyle {
    pub fn plain() -> (s: Self)
        ensures
            s == plain_style(),
    {
        RunStyle { bold: false, italic: false, strike: false, monospace: false }
    }
}

/// A run of text in one style.
pub struct RunSpec {
    pub text: String,
    pub style: RunStyle,
}

pub struct RunView {
    pub text: Seq<char>,
    pub style: RunStyle,
}

impl View for RunSpec {
    type V = RunView;

    open spec fn view(&self) -> RunView {
        RunView { text: self.text@, style: self.style }
    }
}

pub open spec fn run_views(v: Seq<RunSpec>) -> Seq<RunView> {
    v.map_values(|r: RunSpec| r@)
}

#[derive(Clone, Copy, PartialEq, Eq, Structural)]
pub enum Align {
    Left,
    Center,
    Right,
    Justified,
}

#[derive(Clone, Copy, PartialEq, Eq, Structural)]
pub enum VAlign {
    Top,
    Center,
    Bottom,
}

/// Whether a cell starts a vertical merge or continues one from above.
#[derive(Clone, Copy, PartialEq, Eq, Structural)]
pub enum VMerge {
    Restart,
    Continue,
}

/// The line of a table border: single, or cleared.
#[derive(Clone, Copy, PartialEq, Eq, Structural)]
pub enum BorderLine {
    Single,
    Nil,
}

/// A side of a table's border.
#[derive(Clone, Copy, PartialEq, Eq, Structural)]
pub enum BorderSide {
    Top,
    Bottom,
    Left,
    Right,
    InsideH,
    InsideV,
}

/// A paragraph: an optional paragraph style, left indent, list
/// numbering and alignment, and its runs.
pub struct ParaSpec {
    pub style: Option<String>,
    pub indent_left: Option<i32>,
    pub list: Option<usize>,
    pub align: Option<Align>,
    pub runs: Vec<RunSpec>,
}

pub struct ParaView {
    pub style: Option<Seq<char>>,
    pub indent_left: Option<i32>,
    pub list: Option<usize>,
    pub align: Option<Align>,
    pub runs: Seq<RunView>,
}

impl View for ParaSpec {
    type V = ParaView;

    open spec fn view(&self) -> ParaView {
        ParaView {
            style: crate::text::ov(self.style),
            indent_left: self.indent_left,
            list: self.list,
            align: self.align,
            runs: run_views(self.runs@),
        }
    }
}

/// A paragraph of runs with no properties.
pub open spec fn plain_para(runs: Seq<RunView>) -> ParaView {
    ParaView { style: None, indent_left: None, list: None, align: None, runs }
}

/// A table cell: a continuation of a cell spanning rows from above, or a
/// cell of the source with its paragraph, vertical alignment, fill,
/// column span (when more than one) and whether it starts a vertical
/// merge.
pub enum CellSpec {
    Continue { grid_span: usize },
    Source { para: ParaSpec, valign: Option<VAlign>, fill: Option<String>, grid_span: Option<usize>, restart: bool },
}

pub enum CellView {
    Continue { grid_span: usize },
    Source {
        para: ParaView,
        valign: Option<VAlign>,
        fill: Option<Seq<char>>,
        grid_span: Option<usize>,
        restart: bool,
    },
}

impl View for CellSpec {
    type V = CellView;

    open spec fn view(&self) -> CellView {
        match *self {
            CellSpec::Continue { grid_span } => CellView::Continue { grid_span },
            CellSpec::Source { para, valign, fill, grid_span, restart } => CellView::Source {
                para: para@,
                valign,
                fill: crate::text::ov(fill),
                grid_span,
                restart,
            },
        }
    }
}

pub open spec fn cell_views(v: Seq<CellSpec>) -> Seq<CellView> {
    v.map_values(|c: CellSpec| c@)
}

/// A table row: its cells.
pub struct RowSpec {
    pub cells: Vec<CellSpec>,
}

pub open spec fn row_views(v: Seq<RowSpec>) -> Seq<Seq<CellView>> {
    v.map_values(|r: RowSpec| cell_views(r.cells@))
}

/// What a block adds to the document: paragraphs and tables.
pub enum Item {
    Para(ParaSpec),
    Table { border: BorderMode, rows: Vec<RowSpec> },
}

pub enum ItemView {
    Para(ParaView),
    Table { border: BorderMode, rows: Seq<Seq<CellView>> },
}

impl View for Item {
    type V = ItemView;

    open spec fn view(&self) -> ItemView {
        match *self {
            Item::Para(p) => ItemView::Para(p@),
            Item::Table { border, rows } => ItemView::Table { border, rows: row_views(rows@) },
        }
    }
}

pub open spec fn item_views(v: Seq<Item>) -> Seq<ItemView> {
    v.map_values(|i: Item| i@)
}

// ------------------------------------------------------------------
// Runs
// ------------------------------------------------------------------

/// The style an inline element gives its text over `base`: `text` adds
/// bold, italic and strike from its `weight`, `style` and `decoration`;
/// `code` makes it monospace; anything else keeps `base`.
pub open spec fn inline_style_of(b: Block, base: RunStyle) -> RunStyle {
    if b.name@ == "text"@ {
        RunStyle {
            bold: base.bold || lookup_str(b.properties@, "weight"@) == Some("bold"@),
            italic: base.italic || lookup_str(b.properties@, "style"@) == Some("italic"@),
            strike: base.strike || lookup_str(b.properties@, "decoration"@) == Some("strike"@),
            monospace: base.monospace,
        }
    } else if b.name@ == "code"@ {
        RunStyle { monospace: true, ..base }
    } else {
        base
    }
}

/// An inline element never turns off what its surroundings set: `text`
/// adds bold for `weight:bold`, italic for `style:italic` and strike for
/// `decoration:strike`; `code` adds monospace; any other element changes
/// nothing.
pub proof fn lemma_inline_style_adds(b: Block, base: RunStyle)
    ensures
        base.bold ==> inline_style_of(b, base).bold,
        base.italic ==> inline_style_of(b, base).italic,
        base.strike ==> inline_style_of(b, base).strike,
        base.monospace ==> inline_style_of(b, base).monospace,
        b.name@ == "text"@ ==> {
            &&& inline_style_of(b, base).bold == (base.bold || lookup_str(b.properties@, "weight"@)
                == Some("bold"@))
            &&& inline_style_of(b, base).italic == (base.italic || lookup_str(
                b.properties@,
                "style"@,
            ) == Some("italic"@))
            &&& inline_style_of(b, base).strike == (base.strike || lookup_str(
                b.properties@,
                "decoration"@,
            ) == Some("strike"@))
            &&& inline_style_of(b, base).monospace == base.monospace
        },
        b.name@ == "code"@ ==> inline_style_of(b, base) == (RunStyle { monospace: true, ..base }),
        (b.name@ != "text"@ && b.name@ != "code"@) ==> inline_style_of(b, base) == base,
{
    reveal_strlit("text");
    reveal_strlit("code");
    assert("text"@ != "code"@) by {
        assert("text"@[0] != "code"@[0]);
    }
}

/// The runs of the first `k` pieces of a text body: literals in `base`;
/// an inline element's plain text, when it has any, in its style.
pub open spec fn runs_from(pieces: Seq<TextPiece>, k: nat, base: RunStyle) -> Seq<RunView>
    decreases k,
{
    if k == 0 || k > pieces.len() {
        Seq::empty()
    } else {
        runs_from(pieces, (k - 1) as nat, base) + match pieces[k - 1] {
            TextPiece::Literal { text, .. } => seq![RunView { text: text@, style: base }],
            TextPiece::Inline(i) => {
                let t = match plain_text_spec(i) {
                    Some(t) => t,
                    None => Seq::empty(),
                };
                if t.len() > 0 {
                    seq![RunView { text: t, style: inline_style_of(i, base) }]
                } else {
                    Seq::empty()
                }
            },
        }
    }
}

/// The runs of a block's text body.
pub open spec fn runs_of(b: Block, base: RunStyle) -> Seq<RunView> {
    match b.body {
        Body::Text(pieces) => runs_from(pieces@, pieces@.len(), base),
        _ => Seq::empty(),
    }
}

fn opt_is(o: Option<&str>, lit: &str) -> (r: bool)
    ensures
        r == (match o {
            Some(v) => v@ == lit@,
            None => false,
        }),
{
    match o {
        Some(v) => str_eq(v, lit),
        None => false,
    }
}

fn inline_style(b: &Block, base: RunStyle) -> (r: RunStyle)
    ensures
        r == inline_style_of(*b, base),
{
    proof {
        reveal_strlit("text");
        reveal_strlit("code");
    }
    if str_eq(b.name.as_str(), "text") {
        RunStyle {
            bold: base.bold || opt_is(b.prop_str("weight"), "bold"),
            italic: base.italic || opt_is(b.prop_str("style"), "italic"),
            strike: base.strike || opt_is(b.prop_str("decoration"), "strike"),
            monospace: base.monospace,
        }
    } else if str_eq(b.name.as_str(), "code") {
        RunStyle { monospace: true, ..base }
    } else {
        base
    }
}

fn styled_run(text: &str, style: RunStyle) -> (r: RunSpec)
    ensures
        r@ == (RunView { text: text@, style }),
{
    RunSpec { text: to_owned_string(text), style }
}

/// Walk a block's body and collect its runs: literal text inherits
/// `base`; inline elements give their plain text their own style.
fn collect_runs(b: &Block, base: RunStyle) -> (r: Vec<RunSpec>)
    ensures
        run_views(r@) == runs_of(*b, base),
{
    let mut out: Vec<RunSpec> = Vec::new();
    if let Body::Text(pieces) = &b.body {
        let mut i: usize = 0;
        proof {
            assert(run_views(out@) =~= Seq::<RunView>::empty());
        }
        while i < pieces.len()
            invariant
                i <= pieces@.len(),
                b.body == Body::Text(*pieces),
                run_views(out@) == runs_from(pieces@, i as nat, base),
            decreases pieces@.len() - i,
        {
            let ghost before = out@;
            match &pieces[i] {
                TextPiece::Literal { text, .. } => {
                    out.push(styled_run(text.as_str(), base));
                    proof {
                        assert(run_views(out@) =~= run_views(before) + seq![
                            RunView { text: text@, style: base },
                        ]);
                    }
                },
                TextPiece::Inline(inline) => {
                    let style = inline_style(inline, base);
                    let text = match inline.plain_text() {
                        Some(t) => t,
                        None => String::new(),
                    };
                    if crate::text::char_len(text.as_str()) > 0 {
                        out.push(styled_run(text.as_str(), style));
                        proof {
                            assert(run_views(out@) =~= run_views(before) + seq![
                                RunView { text: text@, style },
                            ]);
                        }
                    } else {
                        proof {
                            assert(run_views(out@) =~= run_views(before) + Seq::<RunView>::empty());
                        }
                    }
                },
            }
            i = i + 1;
        }
    } else {
        proof {
            assert(run_views(out@) =~= Seq::<RunView>::empty());
        }
    }
    out
}

// ------------------------------------------------------------------
// Paragraph shapes
// ------------------------------------------------------------------

/// `HeadingN` over the block's runs.
pub open spec fn heading_para_of(b: Block, level: u8) -> ParaView {
    ParaView { style: Some("Heading"@ + dec(level as nat)), ..plain_para(runs_of(b, plain_style())) }
}

/// The block's runs, in the given paragraph style if any.
pub open spec fn text_para_of(b: Block, style: Option<Seq<char>>) -> ParaView {
    ParaView { style, ..plain_para(runs_of(b, plain_style())) }
}

/// Indented ½" with italic runs.
pub open spec fn blockquote_para_of(b: Block) -> ParaView {
    ParaView {
        indent_left: Some(720),
        ..plain_para(runs_of(b, RunStyle { italic: true, ..plain_style() }))
    }
}

/// One monospace paragraph per line of the block's plain text.
pub open spec fn code_paras_of(b: Block) -> Seq<ParaView> {
    let text = match plain_text_spec(b) {
        Some(t) => t,
        None => Seq::empty(),
    };
    lines_spec(text).map_values(
        |l: Seq<char>|
            plain_para(seq![RunView { text: l, style: RunStyle { monospace: true, ..plain_style() } }]),
    )
}

/// One numbered paragraph per child: decimal numbering (list 1) for an
/// ordered list, bullets (list 2) otherwise.
pub open spec fn list_paras_of(b: Block, ordered: bool) -> Seq<ParaView> {
    match b.body {
        Body::Children(items) => items@.map_values(
            |it: Block|
                ParaView {
                    list: Some(
                        if ordered {
                            1usize
                        } else {
                            2usize
                        },
                    ),
                    ..plain_para(runs_of(it, plain_style()))
                },
        ),
        _ => Seq::empty(),
    }
}

fn heading_para(b: &Block, level: u8) -> (p: ParaSpec)
    ensures
        p@ == heading_para_of(*b, level),
{
    let style = crate::text::prefixed_number("Heading", level as u64);
    ParaSpec { style: Some(style), indent_left: None, list: None, align: None, runs: collect_runs(b, RunStyle::plain()) }
}

fn text_para(b: &Block, style: Option<&str>) -> (p: ParaSpec)
    ensures
        p@ == text_para_of(
            *b,
            match style {
                Some(s) => Some(s@),
                None => None,
            },
        ),
{
    let st = match style {
        Some(s) => Some(to_owned_string(s)),
        None => None,
    };
    ParaSpec { style: st, indent_left: None, list: None, align: None, runs: collect_runs(b, RunStyle::plain()) }
}

fn blockquote_para(b: &Block) -> (p: ParaSpec)
    ensures
        p@ == blockquote_para_of(*b),
{
    let style = RunStyle { italic: true, ..RunStyle::plain() };
    ParaSpec { style: None, indent_left: Some(720), list: None, align: None, runs: collect_runs(b, style) }
}

fn emit_code_block(b: &Block) -> (r: Vec<Item>)
    ensures
        item_views(r@) == paras(code_paras_of(*b)),
{
    // One paragraph per line, each in monospace.
    let text = match b.plain_text() {
        Some(t) => t,
        None => String::new(),
    };
    let ls = lines(text.as_str());
    let mono = RunStyle { monospace: true, ..RunStyle::plain() };
    let mut out: Vec<Item> = Vec::new();
    let mut i: usize = 0;
    while i < ls.len()
        invariant
            i <= ls@.len(),
            views_of(ls@) == lines_spec(text@),
            text@ == match plain_text_spec(*b) {
                Some(t) => t,
                None => Seq::<char>::empty(),
            },
            mono == (RunStyle { monospace: true, ..plain_style() }),
            item_views(out@) == paras(code_paras_of(*b).take(i as int)),
        decreases ls@.len() - i,
    {
        let mut runs: Vec<RunSpec> = Vec::new();
        runs.push(styled_run(ls[i].as_str(), mono));
        let p = ParaSpec { style: None, indent_left: None, list: None, align: None, runs };
        proof {
            assert(run_views(p.runs@) =~= seq![RunView { text: ls@[i as int]@, style: mono }]);
            assert(views_of(ls@)[i as int] == ls@[i as int]@);
        }
        let ghost before = out@;
        out.push(Item::Para(p));
        proof {
            assert(item_views(out@) =~= item_views(before).push(ItemView::Para(p@)));
            assert(code_paras_of(*b).take(i + 1) =~= code_paras_of(*b).take(i as int).push(
                code_paras_of(*b)[i as int],
            ));
            assert(paras(code_paras_of(*b).take(i + 1)) =~= paras(code_paras_of(*b).take(i as int)).push(
                ItemView::Para(code_paras_of(*b)[i as int]),
            ));
        }
        i = i + 1;
    }
    proof {
        assert(code_paras_of(*b).take(i as int) =~= code_paras_of(*b));
    }
    out
}

fn emit_list(b: &Block, ordered: bool) -> (r: Vec<Item>)
    ensures
        item_views(r@) == paras(list_paras_of(*b, ordered)),
{
    let num_id: usize = if ordered {
        1
    } else {
        2
    };
    let mut out: Vec<Item> = Vec::new();
    if let Body::Children(items) = &b.body {
        let mut i: usize = 0;
        while i < items.len()
            invariant
                i <= items@.len(),
                b.body == Body::Children(*items),
                num_id == (if ordered {
                    1usize
                } else {
                    2usize
                }),
                item_views(out@) == paras(list_paras_of(*b, ordered).take(i as int)),
            decreases items@.len() - i,
        {
            let p = ParaSpec {
                style: None,
                indent_left: None,
                list: Some(num_id),
                align: None,
                runs: collect_runs(&items[i], RunStyle::plain()),
            };
            let ghost before = out@;
            out.push(Item::Para(p));
            proof {
                assert(item_views(out@) =~= item_views(before).push(ItemView::Para(p@)));
                assert(list_paras_of(*b, ordered).take(i + 1) =~= list_paras_of(*b, ordered).take(
                    i as int,
                ).push(list_paras_of(*b, ordered)[i as int]));
                assert(paras(list_paras_of(*b, ordered).take(i + 1)) =~= paras(list_paras_of(*b, ordered).take(
                    i as int,
                )).push(ItemView::Para(list_paras_of(*b, ordered)[i as int])));
            }
            i = i + 1;
        }
        proof {
            assert(list_paras_of(*b, ordered).take(i as int) =~= list_paras_of(*b, ordered));
        }
    } else {
        proof {
            assert(item_views(out@) =~= paras(Seq::<ParaView>::empty()));
        }
    }
    out
}


// ------------------------------------------------------------------
// Tables
// ------------------------------------------------------------------

/// Stem alignment → paragraph alignment.
pub open spec fn align_of(s: Seq<char>) -> Option<Align> {
    if s == "left"@ {
        Some(Align::Left)
    } else if s == "center"@ {
        Some(Align::Center)
    } else if s == "right"@ {
        Some(Align::Right)
    } else if s == "justify"@ {
        Some(Align::Justified)
    } else {
        None
    }
}

/// Stem vertical alignment → cell vertical alignment.
pub open spec fn valign_of(s: Seq<char>) -> Option<VAlign> {
    if s == "top"@ {
        Some(VAlign::Top)
    } else if s == "middle"@ {
        Some(VAlign::Center)
    } else if s == "bottom"@ {
        Some(VAlign::Bottom)
    } else {
        None
    }
}

fn parse_alignment(s: &str) -> (r: Option<Align>)
    ensures
        r == align_of(s@),
{
    proof {
        reveal_strlit("left");
        reveal_strlit("center");
        reveal_strlit("right");
        reveal_strlit("justify");
    }
    if str_eq(s, "left") {
        Some(Align::Left)
    } else if str_eq(s, "center") {
        Some(Align::Center)
    } else if str_eq(s, "right") {
        Some(Align::Right)
    } else if str_eq(s, "justify") {
        Some(Align::Justified)
    } else {
        None
    }
}

fn parse_valign(s: &str) -> (r: Option<VAlign>)
    ensures
        r == valign_of(s@),
{
    proof {
        reveal_strlit("top");
        reveal_strlit("middle");
        reveal_strlit("bottom");
    }
    if str_eq(s, "top") {
        Some(VAlign::Top)
    } else if str_eq(s, "middle") {
        Some(VAlign::Center)
    } else if str_eq(s, "bottom") {
        Some(VAlign::Bottom)
    } else {
        None
    }
}

/// A hex color without its leading `#`, upper-cased, as OOXML expects.
pub open spec fn no_hash_upper(h: Seq<char>) -> Seq<char> {
    let t = if h.len() > 0 && h[0] == '#' {
        h.drop_first()
    } else {
        h
    };
    t.map_values(|c: char| upper_char(c))
}

fn color_to_hex_no_hash(hex: String) -> (r: String)
    ensures
        r@ == no_hash_upper(hex@),
{
    let ghost h = hex@;
    let t = match crate::text::strip_prefix(hex.as_str(), "#") {
        Some(t) => t,
        None => hex,
    };
    proof {
        reveal_strlit("#");
        assert("#"@ =~= seq!['#']);
        if h.len() > 0 && h[0] == '#' {
            assert(h.take(1) =~= "#"@);
            assert(h.skip(1) =~= h.drop_first());
        } else if h.len() >= 1 {
            assert(h.take(1)[0] == h[0]);
            assert(h.take(1) != "#"@);
        }
        assert(t@ == (if h.len() > 0 && h[0] == '#' { h.drop_first() } else { h }));
    }
    crate::text::ascii_upper(t.as_str())
}

/// The fill a cell's `bg` names in the theme, if any.
pub open spec fn theme_bg(b: Block, t: Theme) -> Option<Seq<char>> {
    match lookup_str(b.properties@, "bg"@) {
        Some(name) => match resolve_color_spec(t, name) {
            Some(c) => Some(no_hash_upper(color_hex(c))),
            None => None,
        },
        None => None,
    }
}

/// The fill of a body row's cells when the table is striped: odd data
/// rows.
pub open spec fn stripe_bg(is_header: bool, stripe: bool, idx: nat) -> Option<Seq<char>> {
    if is_header {
        None
    } else if stripe && idx % 2 == 1 {
        Some("F2F2F2"@)
    } else {
        None
    }
}

/// The runs of a cell: its text, or the text of its child blocks, one
/// after another.
pub open spec fn kids_runs(kids: Seq<Block>, k: nat, base: RunStyle) -> Seq<RunView>
    decreases k,
{
    if k == 0 || k > kids.len() {
        Seq::empty()
    } else {
        kids_runs(kids, (k - 1) as nat, base) + runs_of(kids[k - 1], base)
    }
}

pub open spec fn cell_runs_of(b: Block, base: RunStyle) -> Seq<RunView> {
    match b.body {
        Body::Text(_) => runs_of(b, base),
        Body::Children(kids) => kids_runs(kids@, kids@.len(), base),
        Body::Empty => Seq::empty(),
    }
}

/// A source cell: one paragraph (aligned by `align`) of its runs, bold
/// in a header row; `valign`; the row's forced fill or its own `bg`;
/// `gridSpan` when it spans columns and a vertical-merge start when it
/// spans rows.
pub open spec fn source_cell_of(
    c: Block,
    is_header: bool,
    t: Theme,
    force_bg: Option<Seq<char>>,
    colspan: nat,
    rowspan: nat,
) -> CellView {
    CellView::Source {
        para: ParaView {
            align: match lookup_str(c.properties@, "align"@) {
                Some(a) => align_of(a),
                None => None,
            },
            ..plain_para(cell_runs_of(c, RunStyle { bold: is_header, ..plain_style() }))
        },
        valign: match lookup_str(c.properties@, "valign"@) {
            Some(v) => valign_of(v),
            None => None,
        },
        fill: match force_bg {
            Some(f) => Some(f),
            None => theme_bg(c, t),
        },
        grid_span: if colspan > 1 {
            Some(colspan as usize)
        } else {
            None
        },
        restart: rowspan > 1,
    }
}

/// What a row's cells inherit.
pub struct CellEnv {
    pub is_header: bool,
    pub stripe: bool,
    pub data_idx: nat,
    pub theme: Theme,
}

/// Placeholder slots reserve grid columns without a carry.
pub open spec fn reserve() -> RowspanCarry {
    RowspanCarry { remaining: 0, grid_span: 1 }
}

/// The cells of a row from source cell `k` and grid slot `g` on, with
/// the carries `p`: a slot still covered from above gets a continuation
/// cell spanning the carry's columns; otherwise the next source cell
/// goes there. Returns the cells and the carries afterwards.
#[verifier::opaque]
pub open spec fn row_cells(
    cells: Seq<Block>,
    k: nat,
    g: nat,
    p: Seq<RowspanCarry>,
    env: CellEnv,
) -> (Seq<CellView>, Seq<RowspanCarry>)
    decreases left(cells.len(), k), gap(p.len(), g),
{
    if g < p.len() && p[g as int].remaining > 0 {
        let sp = p[g as int].grid_span as nat;
        if sp == 0 {
            (Seq::empty(), p)
        } else {
            let (o, p2) = row_cells(cells, k, g + sp, dec_slots(p, g as int, sp as int), env);
            (seq![CellView::Continue { grid_span: sp as usize }] + o, p2)
        }
    } else if k < cells.len() {
        let c = cells[k as int];
        let cs = colspan_of(c);
        let rs = rowspan_of(c);
        let cell = source_cell_of(
            c,
            env.is_header,
            env.theme,
            stripe_bg(env.is_header, env.stripe, env.data_idx),
            cs,
            rs,
        );
        let (o, p2) = row_cells(cells, k + 1, g + cs, place_with(p, g as int, cs, rs, reserve()), env);
        (seq![cell] + o, p2)
    } else {
        (Seq::empty(), p)
    }
}

proof fn lemma_cells_cont(cells: Seq<Block>, k: nat, g: nat, p: Seq<RowspanCarry>, env: CellEnv)
    requires
        g < p.len(),
        p[g as int].remaining > 0,
        p[g as int].grid_span > 0,
    ensures
        ({
            let sp = p[g as int].grid_span as nat;
            let (o, p2) = row_cells(cells, k, g + sp, dec_slots(p, g as int, sp as int), env);
            row_cells(cells, k, g, p, env) == (seq![CellView::Continue { grid_span: sp as usize }] + o, p2)
        }),
{
    reveal(row_cells);
}

proof fn lemma_cells_source(cells: Seq<Block>, k: nat, g: nat, p: Seq<RowspanCarry>, env: CellEnv)
    requires
        !(g < p.len() && p[g as int].remaining > 0),
        k < cells.len(),
    ensures
        ({
            let c = cells[k as int];
            let cs = colspan_of(c);
            let rs = rowspan_of(c);
            let cell = source_cell_of(
                c,
                env.is_header,
                env.theme,
                stripe_bg(env.is_header, env.stripe, env.data_idx),
                cs,
                rs,
            );
            let (o, p2) = row_cells(cells, k + 1, g + cs, place_with(p, g as int, cs, rs, reserve()), env);
            row_cells(cells, k, g, p, env) == (seq![cell] + o, p2)
        }),
{
    reveal(row_cells);
}

proof fn lemma_cells_done(cells: Seq<Block>, k: nat, g: nat, p: Seq<RowspanCarry>, env: CellEnv)
    requires
        !(g < p.len() && p[g as int].remaining > 0),
        k >= cells.len(),
    ensures
        row_cells(cells, k, g, p, env) == (Seq::<CellView>::empty(), p),
{
    reveal(row_cells);
}

fn kids_runs_exec(children: &Vec<Block>, base: RunStyle) -> (r: Vec<RunSpec>)
    ensures
        run_views(r@) == kids_runs(children@, children@.len(), base),
{
    let mut acc: Vec<RunSpec> = Vec::new();
    let mut i: usize = 0;
    proof {
        assert(run_views(acc@) =~= Seq::<RunView>::empty());
    }
    while i < children.len()
        invariant
            i <= children@.len(),
            run_views(acc@) == kids_runs(children@, i as nat, base),
        decreases children@.len() - i,
    {
        let mut more = collect_runs(&children[i], base);
        let ghost a = acc@;
        let ghost m = more@;
        acc.append(&mut more);
        proof {
            assert(acc@ =~= a + m);
            assert(run_views(acc@) =~= run_views(a) + run_views(m));
        }
        i = i + 1;
    }
    acc
}

/// The source cell `b` with its paragraph, alignment and fill; its spans
/// are set by the row.
fn build_cell(b: &Block, is_header: bool, theme: &Theme, force_bg: Option<String>) -> (r: (ParaSpec, Option<VAlign>, Option<String>))
    ensures
        ({
            let v = source_cell_of(*b, is_header, *theme, crate::text::ov(force_bg), 1, 1);
            CellView::Source { para: r.0@, valign: r.1, fill: crate::text::ov(r.2), grid_span: None, restart: false }
                == v
        }),
{
    let base = RunStyle { bold: is_header, ..RunStyle::plain() };
    let align = match b.prop_str("align") {
        Some(a) => parse_alignment(a),
        None => None,
    };
    let runs = match &b.body {
        Body::Text(_) => collect_runs(b, base),
        // A cell may carry block children (non-standard but
        // representable): their text is flattened into the single
        // paragraph.
        Body::Children(children) => kids_runs_exec(children, base),
        Body::Empty => Vec::new(),
    };
    proof {
        if b.body is Empty {
            assert(run_views(runs@) =~= Seq::<RunView>::empty());
        }
    }
    let para = ParaSpec { style: None, indent_left: None, list: None, align, runs };
    let valign = match b.prop_str("valign") {
        Some(v) => parse_valign(v),
        None => None,
    };
    let fill = match force_bg {
        Some(f) => Some(f),
        None => match b.prop_str("bg") {
            Some(name) => match theme.resolve_color(name) {
                Some(c) => Some(color_to_hex_no_hash(c.to_hex())),
                None => None,
            },
            None => None,
        },
    };
    (para, valign, fill)
}

/// One continuation cell of a slot covered from above.
fn cont_step(
    pending: &mut Vec<RowspanCarry>,
    grid_col: usize,
    cells: &mut Vec<CellSpec>,
    Ghost(cv): Ghost<Seq<Block>>,
    Ghost(k): Ghost<nat>,
    Ghost(env): Ghost<CellEnv>,
    Ghost(t): Ghost<nat>,
) -> (next: usize)
    requires
        grid_col < old(pending)@.len(),
        old(pending)@[grid_col as int].remaining > 0,
        carries_ok(old(pending)@, t),
        t < 0x8000_0000,
    ensures
        ({
            let rest = row_cells(cv, k, grid_col as nat, old(pending)@, env);
            let rest2 = row_cells(cv, k, next as nat, final(pending)@, env);
            &&& cell_views(old(cells)@) + rest.0 == cell_views(final(cells)@) + rest2.0
            &&& rest.1 == rest2.1
        }),
        carries_ok(final(pending)@, t),
        final(pending)@.len() == old(pending)@.len(),
        grid_col < next <= t,
{
    let carry = pending[grid_col];
    proof {
        assert(pending@[grid_col as int] == carry);
        lemma_cells_cont(cv, k, grid_col as nat, pending@, env);
        lemma_dec_ok(pending@, t, grid_col as int, carry.grid_span as int);
    }
    let ghost before = cells@;
    cells.push(CellSpec::Continue { grid_span: carry.grid_span });
    proof {
        assert(cell_views(cells@) =~= cell_views(before).push(CellView::Continue { grid_span: carry.grid_span }));
    }
    // The continuation consumes `grid_span` grid columns: each of them
    // advances and its remaining count drops.
    dec_carries(pending, grid_col, carry.grid_span);
    grid_col + carry.grid_span
}

/// One source cell at a free slot.
fn source_step(
    cell: &Block,
    is_header: bool,
    stripe: bool,
    data_row_idx: usize,
    theme: &Theme,
    pending: &mut Vec<RowspanCarry>,
    grid_col: usize,
    cells: &mut Vec<CellSpec>,
    Ghost(cv): Ghost<Seq<Block>>,
    Ghost(k): Ghost<nat>,
    Ghost(env): Ghost<CellEnv>,
    Ghost(t): Ghost<nat>,
) -> (next: usize)
    requires
        k < cv.len(),
        cv[k as int] == *cell,
        !(grid_col < old(pending)@.len() && old(pending)@[grid_col as int].remaining > 0),
        carries_ok(old(pending)@, t),
        grid_col <= t,
        t + colspan_of(*cell) < 0x8000_0000,
        env.is_header == is_header,
        env.stripe == stripe,
        env.data_idx == data_row_idx as nat,
        env.theme == *theme,
    ensures
        ({
            let rest = row_cells(cv, k, grid_col as nat, old(pending)@, env);
            let rest2 = row_cells(cv, k + 1, next as nat, final(pending)@, env);
            &&& cell_views(old(cells)@) + rest.0 == cell_views(final(cells)@) + rest2.0
            &&& rest.1 == rest2.1
        }),
        carries_ok(final(pending)@, t + colspan_of(*cell)),
        next == grid_col + colspan_of(*cell),
{
    proof {
        lemma_cells_source(cv, k, grid_col as nat, pending@, env);
    }
    let colspan = colspan_exec(cell);
    let rowspan = rowspan_exec(cell);
    let force_bg: Option<String> = if is_header {
        None
    } else if stripe && data_row_idx % 2 == 1 {
        Some(to_owned_string("F2F2F2"))
    } else {
        None
    };
    let (para, valign, fill) = build_cell(cell, is_header, theme, force_bg);
    let c = CellSpec::Source {
        para,
        valign,
        fill,
        grid_span: if colspan > 1 {
            Some(colspan)
        } else {
            None
        },
        restart: rowspan > 1,
    };
    let ghost before = cells@;
    let ghost cview = c@;
    cells.push(c);
    proof {
        assert(cell_views(cells@) =~= cell_views(before).push(cview));
        lemma_place_with_ok(pending@, t, grid_col as nat, colspan as nat, rowspan as nat, reserve());
    }
    // Reserve the cell's columns; when it spans rows, its leftmost slot
    // carries the merge for the rows below.
    place_cell_with(pending, grid_col, colspan, rowspan, RowspanCarry { remaining: 0, grid_span: 1 });
    grid_col + colspan
}

/// A row of the table: its cells and the carries for the rows below,
/// without trailing exhausted entries.
pub open spec fn row_of(row: Block, env: CellEnv, p: Seq<RowspanCarry>) -> (Seq<CellView>, Seq<RowspanCarry>) {
    let (cv, p2) = row_cells(cells_of(row), 0, 0, p, env);
    (cv, trim_tail(p2))
}


#[verifier::spinoff_prover]
fn build_row(
    row: &Block,
    is_header: bool,
    theme: &Theme,
    pending: &mut Vec<RowspanCarry>,
    stripe: bool,
    data_row_idx: usize,
    Ghost(t): Ghost<nat>,
) -> (r: RowSpec)
    requires
        carries_ok(old(pending)@, t),
        t + row_width(*row) < 0x8000_0000,
    ensures
        ({
            let env = CellEnv { is_header, stripe, data_idx: data_row_idx as nat, theme: *theme };
            let (cv, p2) = row_of(*row, env, old(pending)@);
            &&& cell_views(r.cells@) == cv
            &&& final(pending)@ == p2
        }),
        carries_ok(final(pending)@, t + row_width(*row)),
{
    let ghost env = CellEnv { is_header, stripe, data_idx: data_row_idx as nat, theme: *theme };
    let (source, width) = cells_and_width(row, 0x8000_0000);
    let ghost cv = source@.map_values(|c: &Block| *c);
    let ghost total = row_cells(cv, 0, 0, pending@, env);
    let mut cells: Vec<CellSpec> = Vec::new();
    let n = source.len();
    let mut k: usize = 0;
    let mut grid_col: usize = 0;
    proof {
        assert(cv.take(0) =~= Seq::<Block>::empty());
        assert(cell_views(cells@) =~= Seq::<CellView>::empty());
    }
    // Walk grid columns left to right: each slot takes either a
    // continuation cell (a prior row's cell still spans it) or the next
    // source cell.
    while (grid_col < pending.len() && pending[grid_col].remaining > 0) || k < n
        invariant
            n == source@.len(),
            cv == source@.map_values(|c: &Block| *c),
            cv == cells_of(*row),
            width == row_width(*row),
            t + width < 0x8000_0000,
            k <= n,
            grid_col <= t + span_sum(cv.take(k as int)),
            carries_ok(pending@, t + span_sum(cv.take(k as int))),
            env == (CellEnv { is_header, stripe, data_idx: data_row_idx as nat, theme: *theme }),
            ({
                let rest = row_cells(cv, k as nat, grid_col as nat, pending@, env);
                &&& total.0 == cell_views(cells@) + rest.0
                &&& total.1 == rest.1
            }),
        decreases left(n as nat, k as nat), gap(pending@.len(), grid_col as nat),
    {
        proof {
            lemma_span_take_le(cv, k as int);
        }
        if grid_col < pending.len() && pending[grid_col].remaining > 0 {
            grid_col = cont_step(
                pending,
                grid_col,
                &mut cells,
                Ghost(cv),
                Ghost(k as nat),
                Ghost(env),
                Ghost(t + span_sum(cv.take(k as int))),
            );
        } else {
            let cell = source[k];
            proof {
                assert(cv[k as int] == *cell);
                lemma_span_take(cv, k as int);
            }
            grid_col = source_step(
                cell,
                is_header,
                stripe,
                data_row_idx,
                theme,
                pending,
                grid_col,
                &mut cells,
                Ghost(cv),
                Ghost(k as nat),
                Ghost(env),
                Ghost(t + span_sum(cv.take(k as int))),
            );
            k = k + 1;
        }
    }
    proof {
        lemma_cells_done(cv, k as nat, grid_col as nat, pending@, env);
        lemma_span_take_le(cv, k as int);
        lemma_trim_ok(pending@, t + span_sum(cv.take(k as int)));
        assert(cv.take(n as int) =~= cv);
        assert(cell_views(cells@) =~= total.0);
    }
    // Trim trailing exhausted entries to keep the carries compact.
    trim_carries(pending);
    RowSpec { cells }
}


/// The caption paragraph of a table: the `Caption` style over the
/// caption text.
pub open spec fn caption_para_of(text: Seq<char>) -> ParaView {
    ParaView { style: Some("Caption"@), ..plain_para(seq![RunView { text, style: plain_style() }]) }
}

/// The rows of a table from child `i` on, children other than `row`
/// skipped; `data_idx` counts the body rows before `i`, `p` carries the
/// spans from above.
#[verifier::opaque]
pub open spec fn table_rows_from(
    rows: Seq<Block>,
    i: nat,
    stripe: bool,
    data_idx: nat,
    t: Theme,
    p: Seq<RowspanCarry>,
) -> Seq<Seq<CellView>>
    decreases rows.len() - i,
{
    if i >= rows.len() {
        Seq::empty()
    } else if rows[i as int].name@ != "row"@ {
        table_rows_from(rows, i + 1, stripe, data_idx, t, p)
    } else {
        let r = rows[i as int];
        let h = is_header_row(r);
        let (cv, p1) = row_of(r, CellEnv { is_header: h, stripe, data_idx, theme: t }, p);
        seq![cv] + table_rows_from(
            rows,
            i + 1,
            stripe,
            if h {
                data_idx
            } else {
                data_idx + 1
            },
            t,
            p1,
        )
    }
}

proof fn lemma_trows_done(rows: Seq<Block>, i: nat, stripe: bool, data_idx: nat, t: Theme, p: Seq<RowspanCarry>)
    requires
        i >= rows.len(),
    ensures
        table_rows_from(rows, i, stripe, data_idx, t, p) == Seq::<Seq<CellView>>::empty(),
{
    reveal(table_rows_from);
}

proof fn lemma_trows_skip(rows: Seq<Block>, i: nat, stripe: bool, data_idx: nat, t: Theme, p: Seq<RowspanCarry>)
    requires
        i < rows.len(),
        rows[i as int].name@ != "row"@,
    ensures
        table_rows_from(rows, i, stripe, data_idx, t, p) == table_rows_from(rows, i + 1, stripe, data_idx, t, p),
{
    reveal(table_rows_from);
}

proof fn lemma_trows_row(rows: Seq<Block>, i: nat, stripe: bool, data_idx: nat, t: Theme, p: Seq<RowspanCarry>)
    requires
        i < rows.len(),
        rows[i as int].name@ == "row"@,
    ensures
        ({
            let r = rows[i as int];
            let h = is_header_row(r);
            let (cv, p1) = row_of(r, CellEnv { is_header: h, stripe, data_idx, theme: t }, p);
            table_rows_from(rows, i, stripe, data_idx, t, p) == seq![cv] + table_rows_from(
                rows,
                i + 1,
                stripe,
                if h {
                    data_idx
                } else {
                    data_idx + 1
                },
                t,
                p1,
            )
        }),
{
    reveal(table_rows_from);
}

/// What a `table` block adds: its caption paragraph, if it has one, and
/// then, when its body holds children, the table itself.
pub open spec fn table_items_of(b: Block, t: Theme) -> Seq<ItemView> {
    let cap = match lookup_str(b.properties@, "caption"@) {
        Some(c) => seq![ItemView::Para(caption_para_of(c))],
        None => Seq::empty(),
    };
    match b.body {
        Body::Children(_) => cap.push(
            ItemView::Table {
                border: border_of(b),
                rows: table_rows_from(kids(b), 0, stripe_of(b), 0, t, Seq::empty()),
            },
        ),
        _ => cap,
    }
}

/// A table the builder can lay out: fewer than 2^31 grid columns in
/// all.
pub open spec fn table_ok(b: Block) -> bool {
    table_fits(b)
}

#[verifier::spinoff_prover]
fn table_rows(rows: &[Block], stripe: bool, theme: &Theme) -> (r: Vec<RowSpec>)
    requires
        total_width(rows@) < 0x8000_0000,
    ensures
        row_views(r@) == table_rows_from(rows@, 0, stripe, 0, *theme, Seq::empty()),
{
    let ghost total = table_rows_from(rows@, 0, stripe, 0, *theme, Seq::empty());
    let mut out: Vec<RowSpec> = Vec::new();
    let mut pending: Vec<RowspanCarry> = Vec::new();
    let mut data_row_idx: usize = 0;
    let mut i: usize = 0;
    proof {
        assert(rows@.take(0) =~= Seq::<Block>::empty());
        assert(row_views(out@) =~= Seq::<Seq<CellView>>::empty());
    }
    while i < rows.len()
        invariant
            i <= rows@.len(),
            data_row_idx <= i,
            total_width(rows@) < 0x8000_0000,
            carries_ok(pending@, total_width(rows@.take(i as int))),
            total == row_views(out@) + table_rows_from(
                rows@,
                i as nat,
                stripe,
                data_row_idx as nat,
                *theme,
                pending@,
            ),
        decreases rows@.len() - i,
    {
        proof {
            assert(rows@.take(i + 1).drop_last() =~= rows@.take(i as int));
            lemma_total_prefix(rows@, i as int + 1);
        }
        let row = &rows[i];
        if str_eq(row.name.as_str(), "row") {
            let is_header = match row.prop_str("kind") {
                Some(k) => str_eq(k, "header"),
                None => false,
            };
            proof {
                lemma_trows_row(rows@, i as nat, stripe, data_row_idx as nat, *theme, pending@);
                assert(rows@.take(i + 1).last() == *row);
                assert(is_header == is_header_row(*row));
            }
            let ghost o0 = out@;
            let r = build_row(
                row,
                is_header,
                theme,
                &mut pending,
                stripe,
                data_row_idx,
                Ghost(total_width(rows@.take(i as int))),
            );
            out.push(r);
            proof {
                assert(row_views(out@) =~= row_views(o0).push(cell_views(r.cells@)));
            }
            if !is_header {
                data_row_idx = data_row_idx + 1;
            }
        } else {
            proof {
                lemma_trows_skip(rows@, i as nat, stripe, data_row_idx as nat, *theme, pending@);
            }
        }
        i = i + 1;
    }
    proof {
        lemma_trows_done(rows@, i as nat, stripe, data_row_idx as nat, *theme, pending@);
    }
    out
}

/// An optional caption paragraph (when `caption` is set) followed by the
/// table of the block's rows.
///
/// Supports: `border` (none|outer|all), `stripe`, `caption`, per-row
/// `kind` (header rows get bold runs), per-cell `colspan`, `rowspan`,
/// `bg`, `align`, `valign`.
fn emit_table(b: &Block, theme: &Theme) -> (r: Vec<Item>)
    requires
        table_ok(*b),
    ensures
        item_views(r@) == table_items_of(*b, *theme),
{
    let border = border_mode(b);
    let stripe = match b.prop_str("stripe") {
        Some(v) => str_eq(v, "true"),
        None => false,
    };
    let mut out: Vec<Item> = Vec::new();
    if let Some(caption) = b.prop_str("caption") {
        // Word's built-in "Caption" paragraph style; no style of our own
        // is defined for it.
        let runs = vec![RunSpec { text: to_owned_string(caption), style: RunStyle::plain() }];
        out.push(
            Item::Para(
                ParaSpec { style: Some(to_owned_string("Caption")), indent_left: None, list: None, align: None, runs },
            ),
        );
        proof {
            reveal_strlit("Caption");
            assert(run_views(runs@) =~= seq![RunView { text: caption@, style: plain_style() }]);
        }
    }
    let ghost cap = item_views(out@);
    proof {
        assert(cap =~= match lookup_str(b.properties@, "caption"@) {
            Some(c) => seq![ItemView::Para(caption_para_of(c))],
            None => Seq::<ItemView>::empty(),
        });
    }
    let rows = match &b.body {
        Body::Children(c) => c.as_slice(),
        _ => {
            return out;
        },
    };
    proof {
        assert(rows@ == kids(*b));
    }
    let table_rows = table_rows(rows, stripe, theme);
    out.push(Item::Table { border, rows: table_rows });
    proof {
        assert(item_views(out@) =~= cap.push(
            ItemView::Table { border, rows: row_views(table_rows@) },
        ));
    }
    out
}

// ------------------------------------------------------------------
// Blocks
// ------------------------------------------------------------------

/// The thematic break: a paragraph of a box-drawing rule.
pub open spec fn rule_para() -> ParaView {
    plain_para(seq![RunView { text: "───"@, style: plain_style() }])
}

pub open spec fn paras(ps: Seq<ParaView>) -> Seq<ItemView> {
    ps.map_values(|p: ParaView| ItemView::Para(p))
}

/// What one block of the document adds: `h1`..`h6` a heading paragraph,
/// `p` and anything unknown a text paragraph, `blockquote` an indented
/// italic one, `code` a monospace paragraph per line, `ol`/`ul` a
/// numbered paragraph per item, `hr` a rule, `table` a table.
pub open spec fn block_items(b: Block, t: Theme) -> Seq<ItemView> {
    let n = b.name@;
    let lvl = heading_level(n);
    if 1 <= lvl <= 6 {
        seq![ItemView::Para(heading_para_of(b, lvl as u8))]
    } else if n == "blockquote"@ {
        seq![ItemView::Para(blockquote_para_of(b))]
    } else if n == "code"@ {
        paras(code_paras_of(b))
    } else if n == "ol"@ {
        paras(list_paras_of(b, true))
    } else if n == "ul"@ {
        paras(list_paras_of(b, false))
    } else if n == "hr"@ {
        seq![ItemView::Para(rule_para())]
    } else if n == "table"@ {
        table_items_of(b, t)
    } else {
        seq![ItemView::Para(text_para_of(b, None))]
    }
}

/// A block the builder can lay out: a table must fit.
pub open spec fn block_ok(b: Block) -> bool {
    b.name@ == "table"@ ==> table_ok(b)
}

fn emit_block(b: &Block, theme: &Theme) -> (r: Vec<Item>)
    requires
        block_ok(*b),
    ensures
        item_views(r@) == block_items(*b, *theme),
{
    let name = b.name.as_str();
    let lvl = heading_level_of(name);
    if 1 <= lvl && lvl <= 6 {
        let p = heading_para(b, lvl as u8);
        let r = vec![Item::Para(p)];
        proof {
            assert(item_views(r@) =~= seq![ItemView::Para(p@)]);
        }
        r
    } else if str_eq(name, "blockquote") {
        let p = blockquote_para(b);
        let r = vec![Item::Para(p)];
        proof {
            assert(item_views(r@) =~= seq![ItemView::Para(p@)]);
        }
        r
    } else if str_eq(name, "code") {
        emit_code_block(b)
    } else if str_eq(name, "ol") {
        emit_list(b, true)
    } else if str_eq(name, "ul") {
        emit_list(b, false)
    } else if str_eq(name, "hr") {
        let runs = vec![RunSpec { text: to_owned_string("───"), style: RunStyle::plain() }];
        let p = ParaSpec { style: None, indent_left: None, list: None, align: None, runs };
        let r = vec![Item::Para(p)];
        proof {
            assert(run_views(runs@) =~= seq![RunView { text: "───"@, style: plain_style() }]);
            assert(item_views(r@) =~= seq![ItemView::Para(p@)]);
        }
        r
    } else if str_eq(name, "table") {
        emit_table(b, theme)
    } else {
        let p = text_para(b, None);
        let r = vec![Item::Para(p)];
        proof {
            assert(item_views(r@) =~= seq![ItemView::Para(p@)]);
        }
        r
    }
}

/// What the blocks of a document add, one after another.
pub open spec fn blocks_items(bs: Seq<Block>, t: Theme) -> Seq<ItemView>
    decreases bs.len(),
{
    if bs.len() == 0 {
        Seq::empty()
    } else {
        blocks_items(bs.drop_last(), t) + block_items(bs.last(), t)
    }
}

/// Every block can be laid out.
pub open spec fn blocks_ok(bs: Seq<Block>) -> bool {
    forall|i: int| 0 <= i < bs.len() ==> #[trigger] block_ok(bs[i])
}

/// Lay out the blocks of a document as paragraphs and tables.
pub fn layout_blocks(blocks: &Vec<Block>, theme: &Theme) -> (r: Vec<Item>)
    requires
        blocks_ok(blocks@),
    ensures
        item_views(r@) == blocks_items(blocks@, *theme),
{
    let mut out: Vec<Item> = Vec::new();
    let mut i: usize = 0;
    proof {
        assert(blocks@.take(0) =~= Seq::<Block>::empty());
        assert(item_views(out@) =~= Seq::<ItemView>::empty());
    }
    while i < blocks.len()
        invariant
            i <= blocks@.len(),
            blocks_ok(blocks@),
            item_views(out@) == blocks_items(blocks@.take(i as int), *theme),
        decreases blocks@.len() - i,
    {
        let mut more = emit_block(&blocks[i], theme);
        let ghost a = out@;
        let ghost m = more@;
        out.append(&mut more);
        proof {
            assert(blocks@.take(i + 1).drop_last() =~= blocks@.take(i as int));
            assert(blocks@.take(i + 1).last() == blocks@[i as int]);
            assert(out@ =~= a + m);
            assert(item_views(out@) =~= item_views(a) + item_views(m));
        }
        i = i + 1;
    }
    proof {
        assert(blocks@.take(i as int) =~= blocks@);
    }
    out
}

/// Whether a table can be laid out: the condition of [`emit_table`].
pub fn table_ok_exec(b: &Block) -> (r: bool)
    ensures
        r == table_ok(*b),
{
    table_fits_exec(b)
}

/// Whether every block can be laid out: the condition of
/// [`layout_blocks`].
pub fn blocks_ok_exec(blocks: &Vec<Block>) -> (r: bool)
    ensures
        r == blocks_ok(blocks@),
{
    let mut i: usize = 0;
    while i < blocks.len()
        invariant
            i <= blocks@.len(),
            forall|k: int| 0 <= k < i ==> #[trigger] block_ok(blocks@[k]),
        decreases blocks@.len() - i,
    {
        let b = &blocks[i];
        if str_eq(b.name.as_str(), "table") && !table_ok_exec(b) {
            proof {
                assert(!block_ok(blocks@[i as int]));
            }
            return false;
        }
        i = i + 1;
    }
    true
}

// ------------------------------------------------------------------
// List numbering
// ------------------------------------------------------------------

/// One level of a list's numbering, as plain values.
pub struct LevelSpec {
    pub level: usize,
    pub format: String,
    pub text: String,
    pub left: i32,
    pub hanging: i32,
}

pub struct LevelView {
    pub level: usize,
    pub format: Seq<char>,
    pub text: Seq<char>,
    pub left: i32,
    pub hanging: i32,
}

impl View for LevelSpec {
    type V = LevelView;

    open spec fn view(&self) -> LevelView {
        LevelView {
            level: self.level,
            format: self.format@,
            text: self.text@,
            left: self.left,
            hanging: self.hanging,
        }
    }
}

/// Level `lvl` of a list: bullets `•`, or decimal `%N.` with N = lvl + 1;
/// indented ½" per level, hanging ¼".
pub open spec fn level_of(lvl: usize, bullet: bool) -> LevelView {
    LevelView {
        level: lvl,
        format: if bullet {
            "bullet"@
        } else {
            "decimal"@
        },
        text: if bullet {
            "•"@
        } else {
            "%"@ + dec(lvl as nat + 1) + "."@
        },
        left: (720 * (lvl + 1)) as i32,
        hanging: 360,
    }
}

/// The nine levels of a list: Word expects nine, so deeply nested lists
/// still find theirs.
pub fn numbering_levels(bullet: bool) -> (r: Vec<LevelSpec>)
    ensures
        r@.len() == 9,
        forall|i: int| 0 <= i < 9 ==> (#[trigger] r@[i])@ == level_of(i as usize, bullet),
{
    let mut out: Vec<LevelSpec> = Vec::new();
    let mut lvl: usize = 0;
    while lvl < 9
        invariant
            lvl <= 9,
            out@.len() == lvl,
            forall|i: int| 0 <= i < lvl ==> (#[trigger] out@[i])@ == level_of(i as usize, bullet),
        decreases 9 - lvl,
    {
        let text = if bullet {
            to_owned_string("•")
        } else {
            let mut t = crate::text::prefixed_number("%", (lvl + 1) as u64);
            push_str(&mut t, ".");
            t
        };
        let format = if bullet {
            to_owned_string("bullet")
        } else {
            to_owned_string("decimal")
        };
        let left: i32 = 720 * (lvl as i32 + 1);
        out.push(LevelSpec { level: lvl, format, text, left, hanging: 360 });
        lvl = lvl + 1;
    }
    out
}

// ------------------------------------------------------------------
// Handing the layout to the builder
// ------------------------------------------------------------------

/// The runs' fonts for monospace text.
pub open spec fn courier() -> WFonts {
    WFonts { ascii: Some("Courier New"@), hi_ansi: Some("Courier New"@) }
}

/// What the builder's run for a laid-out run holds.
pub open spec fn wrun_of(v: RunView) -> WRun {
    WRun {
        text: without_line_feeds(v.text),
        bold: v.style.bold,
        italic: v.style.italic,
        strike: v.style.strike,
        fonts: if v.style.monospace {
            Some(courier())
        } else {
            None
        },
    }
}

/// What the builder's paragraph for a laid-out paragraph holds: list
/// paragraphs sit at level 0 of their numbering.
pub open spec fn wpara_of(v: ParaView) -> WPara {
    WPara {
        style: v.style,
        indent_left: v.indent_left,
        numbering: match v.list {
            Some(id) => Some((id, 0usize)),
            None => None,
        },
        align: v.align,
        runs: v.runs.map_values(|r: RunView| wrun_of(r)),
    }
}

pub open spec fn empty_wpara() -> WPara {
    WPara { style: None, indent_left: None, numbering: None, align: None, runs: Seq::empty() }
}

/// What the builder's cell for a laid-out cell holds: a continuation is
/// an empty paragraph continuing the merge over its span; a source cell
/// is its paragraph with its alignment, clear-pattern fill, span and
/// merge start.
pub open spec fn wcell_of(c: CellView) -> WCell {
    match c {
        CellView::Continue { grid_span } => WCell {
            paras: seq![empty_wpara()],
            vmerge: Some(VMerge::Continue),
            grid_span: Some(grid_span),
            valign: None,
            shading: None,
        },
        CellView::Source { para, valign, fill, grid_span, restart } => WCell {
            paras: seq![wpara_of(para)],
            vmerge: if restart {
                Some(VMerge::Restart)
            } else {
                None
            },
            grid_span,
            valign,
            shading: match fill {
                Some(f) => Some(WShading { clear: true, color: "auto"@, fill: f }),
                None => None,
            },
        },
    }
}

pub open spec fn wrow_of(cells: Seq<CellView>) -> Seq<WCell> {
    cells.map_values(|c: CellView| wcell_of(c))
}

/// A single line of size 4 in the automatic color at `side`.
pub open spec fn outer_wborder(side: BorderSide) -> WBorder {
    WBorder { side, line: BorderLine::Single, size: 4, color: "auto"@ }
}

/// The cleared border at `side`.
pub open spec fn nil_wborder(side: BorderSide) -> WBorder {
    WBorder { line: BorderLine::Nil, ..default_border(side) }
}

/// The borders of a table: none; the builder's six defaults; or the
/// four outer sides single with the inside lines cleared.
pub open spec fn wborders_of(mode: BorderMode) -> WBorders {
    match mode {
        BorderMode::Hidden => WBorders { top: None, bottom: None, left: None, right: None, inside_h: None, inside_v: None },
        BorderMode::All => default_borders(),
        BorderMode::Outer => WBorders {
            top: Some(outer_wborder(BorderSide::Top)),
            bottom: Some(outer_wborder(BorderSide::Bottom)),
            left: Some(outer_wborder(BorderSide::Left)),
            right: Some(outer_wborder(BorderSide::Right)),
            inside_h: Some(nil_wborder(BorderSide::InsideH)),
            inside_v: Some(nil_wborder(BorderSide::InsideV)),
        },
    }
}

/// What the builder's table for a laid-out table holds.
pub open spec fn wtable_of(border: BorderMode, rows: Seq<Seq<CellView>>) -> WTable {
    WTable { rows: rows.map_values(|r: Seq<CellView>| wrow_of(r)), borders: wborders_of(border), autofit: true }
}

pub open spec fn wchild_of(i: ItemView) -> WChild {
    match i {
        ItemView::Para(p) => WChild::Para(wpara_of(p)),
        ItemView::Table { border, rows } => WChild::Table(wtable_of(border, rows)),
    }
}

/// A numbering level as the builder holds it: starting at 1, left
/// justified.
pub open spec fn wlevel_of(l: LevelView) -> WLevel {
    WLevel {
        level: l.level,
        start: 1,
        format: l.format,
        text: l.text,
        jc: "left"@,
        left: Some(l.left),
        hanging: Some(l.hanging),
    }
}

/// The nine-level list numbering `id`.
pub open spec fn wabstract_of(id: usize, bullet: bool) -> WAbstract {
    WAbstract { id, levels: Seq::new(9, |i: int| wlevel_of(level_of(i as usize, bullet))) }
}

/// The builder's document for laid-out items: the decimal list
/// numbering 1 and the bullet numbering 2, then the items in order.
pub open spec fn wdocx_of(items: Seq<ItemView>) -> WDocx {
    WDocx {
        body: items.map_values(|i: ItemView| wchild_of(i)),
        abstracts: seq![wabstract_of(1, false), wabstract_of(2, true)],
        nums: seq![(1usize, 1usize), (2usize, 2usize)],
        custom_props: 0,
    }
}

fn make_run(r: &RunSpec) -> (w: docx_rs::Run)
    ensures
        run_model(w) == wrun_of(r@),
{
    let mut run = calls::run_add_text(calls::run_new(), r.text.as_str());
    proof {
        assert(Seq::<char>::empty() + without_line_feeds(r.text@) =~= without_line_feeds(r.text@));
    }
    if r.style.bold {
        run = calls::run_bold(run);
    }
    if r.style.italic {
        run = calls::run_italic(run);
    }
    if r.style.strike {
        run = calls::run_strike(run);
    }
    if r.style.monospace {
        let fonts = calls::run_fonts_hi_ansi(calls::run_fonts_ascii(calls::run_fonts_new(), "Courier New"), "Courier New");
        run = calls::run_fonts(run, fonts);
    }
    run
}

fn make_paragraph(p: &ParaSpec) -> (w: docx_rs::Paragraph)
    ensures
        para_model(w) == wpara_of(p@),
{
    let mut para = calls::paragraph_new();
    if let Some(s) = &p.style {
        para = calls::paragraph_style(para, s.as_str());
    }
    if let Some(left) = p.indent_left {
        para = calls::paragraph_indent_left(para, left);
    }
    if let Some(id) = p.list {
        para = calls::paragraph_numbering(para, id, 0);
    }
    if let Some(a) = p.align {
        para = calls::paragraph_align(para, a);
    }
    let ghost rv = run_views(p.runs@);
    let mut i: usize = 0;
    proof {
        assert(rv.take(0).map_values(|r: RunView| wrun_of(r)) =~= Seq::<WRun>::empty());
    }
    while i < p.runs.len()
        invariant
            i <= p.runs@.len(),
            rv == run_views(p.runs@),
            para_model(para) == (WPara { runs: rv.take(i as int).map_values(|r: RunView| wrun_of(r)), ..wpara_of(p@) }),
        decreases p.runs@.len() - i,
    {
        let w = make_run(&p.runs[i]);
        para = calls::paragraph_add_run(para, w);
        proof {
            assert(rv[i as int] == p.runs@[i as int]@);
            assert(rv.take(i + 1).map_values(|r: RunView| wrun_of(r)) =~= rv.take(i as int).map_values(
                |r: RunView| wrun_of(r),
            ).push(wrun_of(rv[i as int])));
        }
        i = i + 1;
    }
    proof {
        assert(rv.take(i as int) =~= rv);
    }
    para
}

fn make_cell(c: &CellSpec) -> (w: docx_rs::TableCell)
    ensures
        cell_model(w) == wcell_of(c@),
{
    match c {
        CellSpec::Continue { grid_span } => {
            let cell = calls::table_cell_vertical_merge(calls::table_cell_new(), VMerge::Continue);
            let cell = calls::table_cell_grid_span(cell, *grid_span);
            let cell = calls::table_cell_add_paragraph(cell, calls::paragraph_new());
            proof {
                assert(cell_model(cell).paras =~= seq![empty_wpara()]);
            }
            cell
        },
        CellSpec::Source { para, valign, fill, grid_span, restart } => {
            let mut cell = calls::table_cell_add_paragraph(calls::table_cell_new(), make_paragraph(para));
            proof {
                assert(cell_model(cell).paras =~= seq![wpara_of(para@)]);
            }
            if let Some(v) = valign {
                cell = calls::table_cell_vertical_align(cell, *v);
            }
            if let Some(hex) = fill {
                let sh = calls::shading_fill(
                    calls::shading_color(calls::shading_clear(calls::shading_new()), "auto"),
                    hex.as_str(),
                );
                cell = calls::table_cell_shading(cell, sh);
            }
            if let Some(n) = grid_span {
                cell = calls::table_cell_grid_span(cell, *n);
            }
            if *restart {
                cell = calls::table_cell_vertical_merge(cell, VMerge::Restart);
            }
            cell
        },
    }
}

fn make_row(r: &RowSpec) -> (w: docx_rs::TableRow)
    ensures
        row_model(w) == wrow_of(cell_views(r.cells@)),
{
    let ghost cv = cell_views(r.cells@);
    let mut cells: Vec<docx_rs::TableCell> = Vec::new();
    let mut i: usize = 0;
    proof {
        assert(cells@.map_values(|c: docx_rs::TableCell| cell_model(c)) =~= wrow_of(cv.take(0)));
    }
    while i < r.cells.len()
        invariant
            i <= r.cells@.len(),
            cv == cell_views(r.cells@),
            cells@.map_values(|c: docx_rs::TableCell| cell_model(c)) == wrow_of(cv.take(i as int)),
        decreases r.cells@.len() - i,
    {
        let ghost before = cells@;
        let w = make_cell(&r.cells[i]);
        cells.push(w);
        proof {
            assert(cv[i as int] == r.cells@[i as int]@);
            assert(cells@.map_values(|c: docx_rs::TableCell| cell_model(c)) =~= before.map_values(
                |c: docx_rs::TableCell| cell_model(c),
            ).push(cell_model(w)));
            assert(wrow_of(cv.take(i + 1)) =~= wrow_of(cv.take(i as int)).push(wcell_of(cv[i as int])));
        }
        i = i + 1;
    }
    proof {
        assert(cv.take(i as int) =~= cv);
    }
    calls::table_row_new(cells)
}

/// A single 4-eighth-point line at `side`.
fn outer_border(side: BorderSide) -> (w: docx_rs::TableBorder)
    ensures
        border_model(w) == outer_wborder(side),
{
    proof {
        reveal_strlit("auto");
    }
    calls::table_border_color(calls::table_border_size(calls::table_border_single(calls::table_border_new(side)), 4), "auto")
}

fn apply_table_borders(table: docx_rs::Table, mode: BorderMode) -> (w: docx_rs::Table)
    ensures
        table_model(w) == (WTable { borders: wborders_of(mode), ..table_model(table) }),
{
    match mode {
        BorderMode::Hidden => calls::table_set_borders(table, calls::table_borders_with_empty()),
        // The builder's default borders are all six sides, single.
        BorderMode::All => calls::table_set_borders(table, calls::table_borders_new()),
        BorderMode::Outer => {
            // Outer four sides single; inside lines cleared.
            let mut borders = calls::table_borders_with_empty();
            borders = calls::table_borders_set(borders, outer_border(BorderSide::Top));
            borders = calls::table_borders_set(borders, outer_border(BorderSide::Bottom));
            borders = calls::table_borders_set(borders, outer_border(BorderSide::Left));
            borders = calls::table_borders_set(borders, outer_border(BorderSide::Right));
            borders = calls::table_borders_clear(borders, BorderSide::InsideH);
            borders = calls::table_borders_clear(borders, BorderSide::InsideV);
            calls::table_set_borders(table, borders)
        },
    }
}

fn make_table(border: BorderMode, rows: &Vec<RowSpec>) -> (w: docx_rs::Table)
    ensures
        table_model(w) == wtable_of(border, row_views(rows@)),
{
    let ghost rv = row_views(rows@);
    let mut table_rows: Vec<docx_rs::TableRow> = Vec::new();
    let mut i: usize = 0;
    proof {
        assert(table_rows@.map_values(|r: docx_rs::TableRow| row_model(r)) =~= rv.take(0).map_values(
            |r: Seq<CellView>| wrow_of(r),
        ));
    }
    while i < rows.len()
        invariant
            i <= rows@.len(),
            rv == row_views(rows@),
            table_rows@.map_values(|r: docx_rs::TableRow| row_model(r)) == rv.take(i as int).map_values(
                |r: Seq<CellView>| wrow_of(r),
            ),
        decreases rows@.len() - i,
    {
        let ghost before = table_rows@;
        let w = make_row(&rows[i]);
        table_rows.push(w);
        proof {
            assert(rv[i as int] == cell_views(rows@[i as int].cells@));
            assert(table_rows@.map_values(|r: docx_rs::TableRow| row_model(r)) =~= before.map_values(
                |r: docx_rs::TableRow| row_model(r),
            ).push(row_model(w)));
            assert(rv.take(i + 1).map_values(|r: Seq<CellView>| wrow_of(r)) =~= rv.take(i as int).map_values(
                |r: Seq<CellView>| wrow_of(r),
            ).push(wrow_of(rv[i as int])));
        }
        i = i + 1;
    }
    proof {
        assert(rv.take(i as int) =~= rv);
    }
    calls::table_layout_autofit(apply_table_borders(calls::table_new(table_rows), border))
}

fn abstract_numbering(id: usize, bullet: bool) -> (w: docx_rs::AbstractNumbering)
    ensures
        abstract_model(w) == wabstract_of(id, bullet),
{
    proof {
        reveal_strlit("left");
    }
    let levels = numbering_levels(bullet);
    let mut a = calls::abstract_numbering_new(id);
    let mut i: usize = 0;
    proof {
        assert(abstract_model(a).levels =~= wabstract_of(id, bullet).levels.take(0));
    }
    while i < levels.len()
        invariant
            i <= levels@.len(),
            levels@.len() == 9,
            forall|k: int| 0 <= k < 9 ==> (#[trigger] levels@[k])@ == level_of(k as usize, bullet),
            abstract_model(a) == (WAbstract { id, levels: wabstract_of(id, bullet).levels.take(i as int) }),
        decreases levels@.len() - i,
    {
        let l = &levels[i];
        let level = calls::level_new(l.level, 1, l.format.as_str(), l.text.as_str(), "left");
        a = calls::abstract_numbering_add_level(a, calls::level_indent_hanging(level, l.left, l.hanging));
        proof {
            assert(levels@[i as int]@ == level_of(i as usize, bullet));
            assert(wabstract_of(id, bullet).levels.take(i + 1) =~= wabstract_of(id, bullet).levels.take(
                i as int,
            ).push(wlevel_of(level_of(i as usize, bullet))));
        }
        i = i + 1;
    }
    proof {
        assert(wabstract_of(id, bullet).levels.take(9) =~= wabstract_of(id, bullet).levels);
    }
    a
}

/// The builder's document for laid-out items: the two list numberings
/// (decimal as numbering 1, bullets as numbering 2) and the items in
/// order.
fn build_docx(items: &Vec<Item>) -> (d: docx_rs::Docx)
    ensures
        docx_model(d) == wdocx_of(item_views(items@)),
{
    let ghost iv = item_views(items@);
    let mut out = calls::docx_new();
    out = calls::docx_add_abstract_numbering(out, abstract_numbering(1, false));
    out = calls::docx_add_numbering(out, 1, 1);
    out = calls::docx_add_abstract_numbering(out, abstract_numbering(2, true));
    out = calls::docx_add_numbering(out, 2, 2);
    let mut i: usize = 0;
    proof {
        assert(docx_model(out).abstracts =~= wdocx_of(iv).abstracts);
        assert(docx_model(out).nums =~= wdocx_of(iv).nums);
        assert(docx_model(out).body =~= iv.take(0).map_values(|i: ItemView| wchild_of(i)));
    }
    while i < items.len()
        invariant
            i <= items@.len(),
            iv == item_views(items@),
            docx_model(out) == (WDocx { body: iv.take(i as int).map_values(|i: ItemView| wchild_of(i)), ..wdocx_of(iv) }),
        decreases items@.len() - i,
    {
        proof {
            assert(iv.take(i + 1).map_values(|i: ItemView| wchild_of(i)) =~= iv.take(i as int).map_values(
                |i: ItemView| wchild_of(i),
            ).push(wchild_of(iv[i as int])));
            assert(iv[i as int] == items@[i as int]@);
        }
        match &items[i] {
            Item::Para(p) => {
                out = calls::docx_add_paragraph(out, make_paragraph(p));
            },
            Item::Table { border, rows } => {
                out = calls::docx_add_table(out, make_table(*border, rows));
            },
        }
        i = i + 1;
    }
    proof {
        assert(iv.take(i as int) =~= iv);
    }
    out
}

/// The builder's document for a (cooked) document: its blocks laid out
/// by [`layout_blocks`], with the two list numberings.
pub fn build_document(doc: &Document, theme: &Theme) -> (d: docx_rs::Docx)
    requires
        blocks_ok(doc.blocks@),
    ensures
        docx_model(d) == wdocx_of(blocks_items(doc.blocks@, *theme)),
{
    let items = layout_blocks(&doc.blocks, theme);
    build_docx(&items)
}

// ------------------------------------------------------------------
// The exporter
// ------------------------------------------------------------------

/// Exports a document as `.docx` through the `docx-rs` builder.
pub struct DocxExporter;

pub enum DocxError {
    /// The builder could not write the archive; its message.
    Pack(String),
}

impl DocxError {
    /// `docx pack: <message>`.
    pub fn message(&self) -> (r: String)
        ensures
            match *self {
                DocxError::Pack(m) => r@ == "docx pack: "@ + m@,
            },
    {
        match self {
            DocxError::Pack(m) => crate::text::concat2("docx pack: ", m.as_str()),
        }
    }
}

impl DocxExporter {
    pub fn new() -> (e: Self)
        ensures
            e == DocxExporter,
    {
        DocxExporter
    }

    /// The `.docx` bytes of a (cooked) document: its blocks laid out by
    /// [`layout_blocks`], handed to the builder and packed.
    ///
    /// On success the bytes are the archive the builder writes for a
    /// document holding exactly the laid-out blocks (paragraph ids, which
    /// the builder numbers itself, aside); otherwise the builder's
    /// message.
    pub fn export(&self, doc: &Document, theme: &Theme) -> (r: Result<Vec<u8>, DocxError>)
        requires
            blocks_ok(doc.blocks@),
        ensures
            r matches Ok(b) ==> exists|d: docx_rs::Docx|
                docx_model(d) == wdocx_of(blocks_items(doc.blocks@, *theme)) && #[trigger] docx_zip(
                    docx_rendered(d),
                ) == b@,
    {
        let docx = build_document(doc, theme);
        let ghost d = docx;
        let x = calls::docx_build(docx);
        match calls::xml_docx_pack(x) {
            Ok(bytes) => {
                proof {
                    assert(docx_zip(docx_rendered(d)) == bytes@);
                }
                Ok(bytes)
            },
            Err(m) => Err(DocxError::Pack(m)),
        }
    }
}

// ------------------------------------------------------------------
// How spans carry from row to row
// ------------------------------------------------------------------

/// The cell a source cell becomes in a row that no cell above spans
/// into.
pub open spec fn plain_cell(c: Block, env: CellEnv) -> CellView {
    source_cell_of(
        c,
        env.is_header,
        env.theme,
        stripe_bg(env.is_header, env.stripe, env.data_idx),
        colspan_of(c),
        rowspan_of(c),
    )
}

/// A cell's fill here: the light grey stripe on odd data rows of a striped
/// table, whatever the cell's own `bg`; elsewhere the theme color its `bg`
/// names, and none in a header row without one. Header cells are bold, and
/// a cell spans columns and starts a vertical merge exactly as its
/// `colspan` and `rowspan` say.
pub proof fn lemma_plain_cell_fill(c: Block, env: CellEnv)
    ensures
        plain_cell(c, env) matches CellView::Source { para, fill, grid_span, restart, .. } && {
            &&& (!env.is_header && env.stripe && env.data_idx % 2 == 1) ==> fill == Some("F2F2F2"@)
            &&& !(!env.is_header && env.stripe && env.data_idx % 2 == 1) ==> fill == theme_bg(
                c,
                env.theme,
            )
            &&& (grid_span is Some <==> colspan_of(c) > 1)
            &&& (grid_span matches Some(n) ==> n as nat == colspan_of(c))
            &&& restart == (rowspan_of(c) > 1)
            &&& para.runs == cell_runs_of(c, RunStyle { bold: env.is_header, ..plain_style() })
        },
{
}

proof fn lemma_colspan_pos(c: Block)
    ensures
        colspan_of(c) >= 1,
{
}

proof fn lemma_cells_free(cells: Seq<Block>, k: nat, g: nat, p: Seq<RowspanCarry>, env: CellEnv)
    requires
        k <= cells.len(),
        forall|j: int| g <= j < p.len() ==> (#[trigger] p[j]).remaining == 0,
    ensures
        row_cells(cells, k, g, p, env).0 == cells.skip(k as int).map_values(|c: Block| plain_cell(c, env)),
    decreases cells.len() - k,
{
    if k < cells.len() {
        lemma_cells_source(cells, k, g, p, env);
        let c = cells[k as int];
        let cs = colspan_of(c);
        let rs = rowspan_of(c);
        lemma_colspan_pos(c);
        let q = place_with(p, g as int, cs, rs, reserve());
        assert forall|j: int| g + cs <= j < q.len() implies (#[trigger] q[j]).remaining == 0 by {
            let e = extend_with(p, (g + cs) as int, reserve());
            assert(q[j] == e[j]);
            if j >= p.len() {
                assert(e[j] == reserve());
            }
        }
        lemma_cells_free(cells, k + 1, g + cs, q, env);
        assert(cells.skip(k as int).map_values(|c: Block| plain_cell(c, env)) =~= seq![plain_cell(c, env)]
            + cells.skip((k + 1) as int).map_values(|c: Block| plain_cell(c, env)));
    } else {
        lemma_cells_done(cells, k, g, p, env);
        assert(cells.skip(k as int).map_values(|c: Block| plain_cell(c, env)) =~= Seq::<CellView>::empty());
    }
}

/// A row that no cell above spans into gets exactly one cell per source
/// cell, in order, each with its own spans, alignment and fill.
pub proof fn lemma_row_without_carries(row: Block, env: CellEnv, p: Seq<RowspanCarry>)
    requires
        forall|j: int| 0 <= j < p.len() ==> (#[trigger] p[j]).remaining == 0,
    ensures
        row_of(row, env, p).0 == cells_of(row).map_values(|c: Block| plain_cell(c, env)),
{
    lemma_cells_free(cells_of(row), 0, 0, p, env);
    assert(cells_of(row).skip(0) =~= cells_of(row));
}

/// The carries a row leaves keep every slot left of where it started.
proof fn lemma_cells_keep(cells: Seq<Block>, k: nat, g: nat, p: Seq<RowspanCarry>, env: CellEnv, j: int)
    requires
        0 <= j < g,
        j < p.len(),
    ensures
        j < row_cells(cells, k, g, p, env).1.len(),
        row_cells(cells, k, g, p, env).1[j] == p[j],
    decreases left(cells.len(), k), gap(p.len(), g),
{
    if g < p.len() && p[g as int].remaining > 0 {
        let sp = p[g as int].grid_span as nat;
        if sp == 0 {
            reveal(row_cells);
        } else {
            lemma_cells_cont(cells, k, g, p, env);
            let d = dec_slots(p, g as int, sp as int);
            lemma_cells_keep(cells, k, g + sp, d, env, j);
        }
    } else if k < cells.len() {
        lemma_cells_source(cells, k, g, p, env);
        let c = cells[k as int];
        let cs = colspan_of(c);
        lemma_colspan_pos(c);
        let q = place_with(p, g as int, cs, rowspan_of(c), reserve());
        let e = extend_with(p, (g + cs) as int, reserve());
        assert(e[j] == p[j]);
        assert(q[j] == p[j]);
        lemma_cells_keep(cells, k + 1, g + cs, q, env, j);
    } else {
        lemma_cells_done(cells, k, g, p, env);
    }
}

/// A cell spanning rows continues into the row below: when the first
/// cell of a row that no cell above spans into spans more than one row,
/// the next row starts with a continuation of that cell, as wide as it.
pub proof fn lemma_rowspan_continues(
    row: Block,
    below: Block,
    env: CellEnv,
    env_below: CellEnv,
    p: Seq<RowspanCarry>,
)
    requires
        forall|j: int| 0 <= j < p.len() ==> (#[trigger] p[j]).remaining == 0,
        cells_of(row).len() > 0,
        rowspan_of(cells_of(row)[0]) > 1,
    ensures
        row_of(below, env_below, row_of(row, env, p).1).0.len() > 0,
        row_of(below, env_below, row_of(row, env, p).1).0[0] == (CellView::Continue {
            grid_span: colspan_of(cells_of(row)[0]) as usize,
        }),
{
    let cells = cells_of(row);
    let c = cells[0];
    let cs = colspan_of(c);
    let rs = rowspan_of(c);
    lemma_colspan_pos(c);
    lemma_cells_source(cells, 0, 0, p, env);
    let q = place_with(p, 0, cs, rs, reserve());
    assert(q[0] == RowspanCarry { remaining: (rs - 1) as u32, grid_span: cs as usize });
    lemma_cells_keep(cells, 1, cs, q, env, 0);
    let p2 = row_cells(cells, 0, 0, p, env).1;
    assert(p2[0] == q[0]);
    lemma_trim_keeps(p2, 0);
    let t = trim_tail(p2);
    assert(row_of(row, env, p).1 == t);
    lemma_cells_cont(cells_of(below), 0, 0, t, env_below);
}

} // verus!
