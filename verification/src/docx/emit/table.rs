//! Table emission.
//!
//! Stem source:
//!
//!   `table[border:all, stripe:true, caption:"…"]{`
//!       `row[kind:header]{ cell(A) cell(B) }`
//!       `row{ cell[colspan:2](spans) }`
//!       `row{ cell[rowspan:2](tall) cell(x) }`
//!       `row{ cell(y) }`
//!   `}`
//!
//! OOXML target shape:
//!
//!   `<w:tbl>`
//!       `<w:tblPr> tblW/Borders/Layout/Look </w:tblPr>`
//!       `<w:tblGrid> <w:gridCol w:w=…/> × cols </w:tblGrid>`
//!       `<w:tr> <w:tc>… × cells </w:tr> × rows`
//!   `</w:tbl>`
//!
//! Schema order inside `<w:tcPr>`:
//!   cnfStyle → tcW → gridSpan → hMerge → vMerge → tcBorders →
//!   shd → noWrap → tcMar → textDirection → tcFitText → vAlign →
//!   hideMark

use vstd::prelude::*;

use crate::ast_v2::{lookup_str, Block, Body};
use crate::docx::xml::{
    attr1, attr2, attr3, attr_views, element, empty_tag, group_concat, no_attrs, XmlBuf,
};
use crate::docx2::emit::caption::{caption_para, caption_para_into};
use crate::docx2::emit::ctx::{succ, EmitCtx};
use crate::docx2::emit::length::{scaled, scaled_of};
use crate::docx2::emit::paragraph::{dxa_of, parse_dxa};
use crate::docx2::emit::run::{body_out, plain_rpr, render_body_with, run_frame, run_state, RPr, RPrView, RunState};
use crate::docx2::emit::state::{doc_frame, doc_state, lemma_run_step, DocState};
use crate::text::{
    all_hex, ascii_upper, char_len, chars_of, dec, is_all_hex, parse_u32, parse_unsigned,
    parse_usize, prefixed_number, split_char, split_spec, strip_leading, strip_leading_char,
    str_eq, to_owned_string, trim, trim_spec, u64_to_string, upper_char, views_of,
};

verus! {

broadcast use group_concat;

/// Content area on letter paper with 1" margins everywhere: 12240
/// dxa page width minus 2×1440 dxa margins.
pub const CONTENT_WIDTH_DXA: u32 = 8640;

/// Fill of striped data rows.
pub open spec fn stripe_fill() -> Seq<char> {
    "F2F2F2"@
}

// ------------------------------------------------------------------
// Property vocabulary
// ------------------------------------------------------------------

#[derive(Clone, Copy, PartialEq, Eq, Structural)]
pub enum BorderMode {
    Hidden,
    Outer,
    All,
}

/// `border: all | outer`, anything else (the default `none`) hides them.
pub open spec fn border_of(b: Block) -> BorderMode {
    match lookup_str(b.properties@, "border"@) {
        Some(v) => if v == "all"@ {
            BorderMode::All
        } else if v == "outer"@ {
            BorderMode::Outer
        } else {
            BorderMode::Hidden
        },
        None => BorderMode::Hidden,
    }
}

/// A property's length in dxa, if set and valid.
pub open spec fn prop_dxa(b: Block, key: Seq<char>) -> Option<u32> {
    match lookup_str(b.properties@, key) {
        Some(v) => dxa_of(v),
        None => None,
    }
}

/// OOXML's `w:hRule` for a `height-rule` value.
pub open spec fn height_rule_of(s: Seq<char>) -> Option<Seq<char>> {
    if s == "atLeast"@ || s == "at-least"@ || s == "min"@ {
        Some("atLeast"@)
    } else if s == "exact"@ {
        Some("exact"@)
    } else if s == "auto"@ {
        Some("auto"@)
    } else {
        None
    }
}

/// A property's height rule, if set and known.
pub open spec fn prop_rule(b: Block, key: Seq<char>) -> Option<Seq<char>> {
    match lookup_str(b.properties@, key) {
        Some(v) => height_rule_of(v),
        None => None,
    }
}

/// Six hex digits (whitespace and leading `#`s ignored), upper-cased.
pub open spec fn hex6(s: Seq<char>) -> Option<Seq<char>> {
    let t = strip_leading(trim_spec(s), '#');
    if t.len() == 6 && all_hex(t) {
        Some(t.map_values(|c: char| upper_char(c)))
    } else {
        None
    }
}

/// A property's color, if it is six hex digits.
pub open spec fn prop_hex(b: Block, key: Seq<char>) -> Option<Seq<char>> {
    match lookup_str(b.properties@, key) {
        Some(v) => hex6(v),
        None => None,
    }
}

/// Stem alignment → `w:jc`.
pub open spec fn jc_of(s: Seq<char>) -> Option<Seq<char>> {
    if s == "left"@ {
        Some("left"@)
    } else if s == "right"@ {
        Some("right"@)
    } else if s == "center"@ || s == "centre"@ {
        Some("center"@)
    } else if s == "justify"@ || s == "both"@ {
        Some("both"@)
    } else {
        None
    }
}

/// Stem vertical alignment → `w:vAlign`.
pub open spec fn valign_of(s: Seq<char>) -> Option<Seq<char>> {
    if s == "top"@ {
        Some("top"@)
    } else if s == "middle"@ || s == "center"@ {
        Some("center"@)
    } else if s == "bottom"@ {
        Some("bottom"@)
    } else {
        None
    }
}

/// A cell's `colspan`: a positive number, else 1.
pub open spec fn colspan_of(c: Block) -> nat {
    match lookup_str(c.properties@, "colspan"@) {
        Some(v) => match parse_unsigned(v, usize::MAX as nat) {
            Some(n) => if n > 0 {
                n
            } else {
                1
            },
            None => 1,
        },
        None => 1,
    }
}

/// A cell's `rowspan`: a positive number, else 1.
pub open spec fn rowspan_of(c: Block) -> nat {
    match lookup_str(c.properties@, "rowspan"@) {
        Some(v) => match parse_unsigned(v, u32::MAX as nat) {
            Some(n) => if n > 0 {
                n
            } else {
                1
            },
            None => 1,
        },
        None => 1,
    }
}

pub(crate) fn border_mode(b: &Block) -> (m: BorderMode)
    ensures
        m == border_of(*b),
{
    match b.prop_str("border") {
        Some(v) => if str_eq(v, "all") {
            BorderMode::All
        } else if str_eq(v, "outer") {
            BorderMode::Outer
        } else {
            BorderMode::Hidden
        },
        None => BorderMode::Hidden,
    }
}

fn prop_dxa_exec(b: &Block, key: &str) -> (r: Option<u32>)
    ensures
        r == prop_dxa(*b, key@),
{
    match b.prop_str(key) {
        Some(v) => parse_dxa(v),
        None => None,
    }
}

/// Parse the `height-rule` / `row-height-rule` property to OOXML's
/// `w:hRule`. `None` for unrecognized values, so the caller keeps the
/// default ("atLeast", which OOXML implies when the attribute is
/// omitted).
fn parse_height_rule(s: &str) -> (r: Option<&'static str>)
    ensures
        match r {
            Some(v) => height_rule_of(s@) == Some(v@),
            None => height_rule_of(s@) is None,
        },
{
    if str_eq(s, "atLeast") || str_eq(s, "at-least") || str_eq(s, "min") {
        Some("atLeast")
    } else if str_eq(s, "exact") {
        Some("exact")
    } else if str_eq(s, "auto") {
        Some("auto")
    } else {
        None
    }
}

fn prop_rule_exec(b: &Block, key: &str) -> (r: Option<&'static str>)
    ensures
        match r {
            Some(v) => prop_rule(*b, key@) == Some(v@),
            None => prop_rule(*b, key@) is None,
        },
{
    match b.prop_str(key) {
        Some(v) => parse_height_rule(v),
        None => None,
    }
}

fn normalize_hex(s: &str) -> (r: Option<String>)
    ensures
        match r {
            Some(v) => hex6(s@) == Some(v@),
            None => hex6(s@) is None,
        },
{
    let trimmed = trim(s);
    let t = strip_leading_char(trimmed.as_str(), '#');
    if char_len(t.as_str()) == 6 && is_all_hex(t.as_str()) {
        Some(ascii_upper(t.as_str()))
    } else {
        None
    }
}

fn prop_hex_exec(b: &Block, key: &str) -> (r: Option<String>)
    ensures
        match r {
            Some(v) => prop_hex(*b, key@) == Some(v@),
            None => prop_hex(*b, key@) is None,
        },
{
    match b.prop_str(key) {
        Some(v) => normalize_hex(v),
        None => None,
    }
}

fn map_jc(s: &str) -> (r: Option<&'static str>)
    ensures
        match r {
            Some(v) => jc_of(s@) == Some(v@),
            None => jc_of(s@) is None,
        },
{
    if str_eq(s, "left") {
        Some("left")
    } else if str_eq(s, "right") {
        Some("right")
    } else if str_eq(s, "center") || str_eq(s, "centre") {
        Some("center")
    } else if str_eq(s, "justify") || str_eq(s, "both") {
        Some("both")
    } else {
        None
    }
}

fn map_valign(s: &str) -> (r: Option<&'static str>)
    ensures
        match r {
            Some(v) => valign_of(s@) == Some(v@),
            None => valign_of(s@) is None,
        },
{
    if str_eq(s, "top") {
        Some("top")
    } else if str_eq(s, "middle") || str_eq(s, "center") {
        Some("center")
    } else if str_eq(s, "bottom") {
        Some("bottom")
    } else {
        None
    }
}

pub(crate) fn colspan_exec(c: &Block) -> (r: usize)
    ensures
        r == colspan_of(*c),
{
    match c.prop_str("colspan") {
        Some(v) => match parse_usize(v) {
            Some(n) => if n > 0 {
                n
            } else {
                1
            },
            None => 1,
        },
        None => 1,
    }
}

pub(crate) fn rowspan_exec(c: &Block) -> (r: u32)
    ensures
        r == rowspan_of(*c),
{
    match c.prop_str("rowspan") {
        Some(v) => match parse_u32(v) {
            Some(n) => if n > 0 {
                n
            } else {
                1
            },
            None => 1,
        },
        None => 1,
    }
}

// ------------------------------------------------------------------
// The grid
// ------------------------------------------------------------------

/// The children of a block, or none.
pub open spec fn kids(b: Block) -> Seq<Block> {
    match b.body {
        Body::Children(k) => k@,
        _ => Seq::empty(),
    }
}

/// The blocks of a list with the given name, in order.
pub open spec fn named(bs: Seq<Block>, name: Seq<char>) -> Seq<Block>
    decreases bs.len(),
{
    if bs.len() == 0 {
        Seq::empty()
    } else if bs.last().name@ == name {
        named(bs.drop_last(), name).push(bs.last())
    } else {
        named(bs.drop_last(), name)
    }
}

/// The `cell` children of a row.
pub open spec fn cells_of(row: Block) -> Seq<Block> {
    named(kids(row), "cell"@)
}

/// The sum of the colspans of a list of cells.
pub open spec fn span_sum(cs: Seq<Block>) -> nat
    decreases cs.len(),
{
    if cs.len() == 0 {
        0
    } else {
        span_sum(cs.drop_last()) + colspan_of(cs.last())
    }
}

/// The grid columns a row spans.
pub open spec fn row_width(row: Block) -> nat {
    span_sum(cells_of(row))
}

/// The widest `row` of a list: the table's grid column count.
pub open spec fn grid_width(rows: Seq<Block>) -> nat
    decreases rows.len(),
{
    if rows.len() == 0 {
        0
    } else {
        let w = grid_width(rows.drop_last());
        let r = rows.last();
        if r.name@ == "row"@ && row_width(r) > w {
            row_width(r)
        } else {
            w
        }
    }
}

/// The grid columns of all `row`s of a list together.
pub open spec fn total_width(rows: Seq<Block>) -> nat
    decreases rows.len(),
{
    if rows.len() == 0 {
        0
    } else {
        total_width(rows.drop_last()) + if rows.last().name@ == "row"@ {
            row_width(rows.last())
        } else {
            0
        }
    }
}

/// A table whose rows together span fewer than 2^31 grid columns: the
/// grid, the per-column widths and the rowspan bookkeeping are then all
/// of a size that can be allocated and counted.
pub open spec fn table_fits(b: Block) -> bool {
    total_width(kids(b)) < 0x8000_0000
}

proof fn lemma_grid_le_total(rows: Seq<Block>)
    ensures
        grid_width(rows) <= total_width(rows),
    decreases rows.len(),
{
    if rows.len() > 0 {
        lemma_grid_le_total(rows.drop_last());
    }
}

/// The cells of a row, and their span sum.
pub(crate) fn cells_and_width<'a>(row: &'a Block, bound: usize) -> (r: (Vec<&'a Block>, usize))
    requires
        row_width(*row) <= bound,
        bound <= 0x8000_0000,
    ensures
        r.0@.map_values(|c: &Block| *c) == cells_of(*row),
        r.1 == row_width(*row),
{
    let mut out: Vec<&Block> = Vec::new();
    let mut sum: usize = 0;
    if let Body::Children(children) = &row.body {
        let mut i: usize = 0;
        while i < children.len()
            invariant
                i <= children@.len(),
                row.body == Body::Children(*children),
                out@.map_values(|c: &Block| *c) == named(children@.take(i as int), "cell"@),
                sum == span_sum(named(children@.take(i as int), "cell"@)),
                row_width(*row) <= bound <= 0x8000_0000,
            decreases children@.len() - i,
        {
            proof {
                assert(children@.take(i + 1).drop_last() =~= children@.take(i as int));
                lemma_span_prefix(children@, i as int + 1);
                lemma_span_step(children@, i as int);
                assert(named(children@, "cell"@) == cells_of(*row));
            }
            let c = &children[i];
            if str_eq(c.name.as_str(), "cell") {
                let ghost before = out@;
                out.push(c);
                proof {
                    assert(out@.map_values(|c: &Block| *c) =~= before.map_values(|c: &Block| *c).push(*c));
                }
                let cs = colspan_exec(c);
                sum = sum + cs;
            }
            i = i + 1;
        }
        proof {
            assert(children@.take(i as int) =~= children@);
        }
    } else {
        proof {
            assert(out@.map_values(|c: &Block| *c) =~= Seq::<Block>::empty());
        }
    }
    (out, sum)
}

/// A prefix of the children spans no more than all of them.
pub(crate) proof fn lemma_span_prefix(ks: Seq<Block>, n: int)
    requires
        0 <= n <= ks.len(),
    ensures
        span_sum(named(ks.take(n), "cell"@)) <= span_sum(named(ks, "cell"@)),
    decreases ks.len() - n,
{
    if n < ks.len() {
        lemma_span_prefix(ks, n + 1);
        lemma_span_step(ks, n);
    } else {
        assert(ks.take(n) =~= ks);
    }
}

/// One more child adds its colspan when it is a cell.
pub(crate) proof fn lemma_span_step(ks: Seq<Block>, n: int)
    requires
        0 <= n < ks.len(),
    ensures
        named(ks.take(n + 1), "cell"@) == if ks[n].name@ == "cell"@ {
            named(ks.take(n), "cell"@).push(ks[n])
        } else {
            named(ks.take(n), "cell"@)
        },
        span_sum(named(ks.take(n + 1), "cell"@)) == span_sum(named(ks.take(n), "cell"@)) + if ks[n].name@
            == "cell"@ {
            colspan_of(ks[n])
        } else {
            0
        },
{
    let a = ks.take(n);
    let b = ks.take(n + 1);
    assert(b.drop_last() =~= a);
    assert(b.last() == ks[n]);
    if ks[n].name@ == "cell"@ {
        assert(named(a, "cell"@).push(ks[n]).drop_last() =~= named(a, "cell"@));
    }
}

/// The grid column count of a table's rows.
fn compute_grid_cols(rows: &[Block]) -> (n: usize)
    requires
        total_width(rows@) < 0x8000_0000,
    ensures
        n == grid_width(rows@),
{
    let mut best: usize = 0;
    let mut i: usize = 0;
    while i < rows.len()
        invariant
            i <= rows@.len(),
            total_width(rows@) < 0x8000_0000,
            best == grid_width(rows@.take(i as int)),
        decreases rows@.len() - i,
    {
        proof {
            assert(rows@.take(i + 1).drop_last() =~= rows@.take(i as int));
            lemma_total_prefix(rows@, i as int + 1);
        }
        let r = &rows[i];
        if str_eq(r.name.as_str(), "row") {
            proof {
                assert(rows@.take(i + 1).last() == *r);
            }
            let (_, w) = cells_and_width(r, 0x8000_0000);
            if w > best {
                best = w;
            }
        }
        i = i + 1;
    }
    proof {
        assert(rows@.take(i as int) =~= rows@);
    }
    best
}

/// A prefix of the rows spans no more than all of them.
pub(crate) proof fn lemma_total_prefix(rows: Seq<Block>, n: int)
    requires
        0 <= n <= rows.len(),
    ensures
        total_width(rows.take(n)) <= total_width(rows),
        n > 0 && rows[n - 1].name@ == "row"@ ==> row_width(rows[n - 1]) <= total_width(rows),
    decreases rows.len() - n,
{
    if n < rows.len() {
        lemma_total_prefix(rows, n + 1);
        assert(rows.take(n + 1).drop_last() =~= rows.take(n));
    } else {
        assert(rows.take(n) =~= rows);
    }
}

// ------------------------------------------------------------------
// Column widths
// ------------------------------------------------------------------

/// Whether every character is a digit or a point.
pub open spec fn digits_or_points(s: Seq<char>) -> bool {
    forall|i: int| 0 <= i < s.len() ==> ('0' <= #[trigger] s[i] <= '9' || s[i] == '.')
}

/// A `widths` entry in dxa: a bare number is already dxa (rounded,
/// saturating at `u32::MAX`); a number with a unit converts as any
/// length does.
pub open spec fn column_width_of(s: Seq<char>) -> Option<u32> {
    let t = trim_spec(s);
    if t.len() == 0 {
        None
    } else if digits_or_points(t) {
        match scaled_of(t, 1, 1) {
            None => None,
            Some((_, Some(r))) => Some(r),
            Some((_, None)) => Some(u32::MAX),
        }
    } else {
        dxa_of(t)
    }
}

fn is_digits_or_points(s: &str) -> (r: bool)
    ensures
        r == digits_or_points(s@),
{
    let cs = chars_of(s);
    let mut i: usize = 0;
    while i < cs.len()
        invariant
            i <= cs@.len(),
            cs@ == s@,
            forall|j: int| 0 <= j < i ==> ('0' <= #[trigger] s@[j] <= '9' || s@[j] == '.'),
        decreases cs@.len() - i,
    {
        let c = cs[i];
        if !(('0' <= c && c <= '9') || c == '.') {
            return false;
        }
        i = i + 1;
    }
    true
}

/// Per-column width parser: a bare number is raw dxa (Word's
/// `<w:gridCol w:w="…"/>` unit); explicit units convert through
/// [`parse_dxa`].
fn parse_column_width(s: &str) -> (r: Option<u32>)
    ensures
        r == column_width_of(s@),
{
    let t = trim(s);
    if char_len(t.as_str()) == 0 {
        return None;
    }
    if is_digits_or_points(t.as_str()) {
        return match scaled(t.as_str(), 1, 1) {
            None => None,
            Some((_, Some(r))) => Some(r),
            Some((_, None)) => Some(0xFFFF_FFFF),
        };
    }
    parse_dxa(t.as_str())
}

/// The width of column `i`: from the `i`-th `widths` entry when it
/// parses, else an equal share of the content width.
pub open spec fn col_width(spec: Option<Seq<char>>, n: nat, i: int) -> u32 {
    let default_each = (CONTENT_WIDTH_DXA / (n as u32)) as u32;
    match spec {
        Some(s) => {
            let parts = split_spec(s, ',');
            if i < parts.len() {
                match column_width_of(trim_spec(parts[i])) {
                    Some(d) => d,
                    None => default_each,
                }
            } else {
                default_each
            }
        },
        None => default_each,
    }
}

/// Without a `widths` property the columns share the content width
/// equally: each is the largest width of which `n` fit into 8640 dxa.
pub proof fn lemma_default_widths_share(n: nat, i: int)
    requires
        0 < n < 0x8000_0000,
    ensures
        n * (col_width(None, n, i) as int) <= 8640 < n * (col_width(None, n, i) as int + 1),
{
    let w: int = 8640int / (n as int);
    assert(col_width(None, n, i) as int == w);
    assert(n * w <= 8640 < n * (w + 1)) by (nonlinear_arith)
        requires
            w == 8640int / (n as int),
            n > 0,
    ;
}

/// The widths of all `n` columns.
pub open spec fn col_widths(spec: Option<Seq<char>>, n: nat) -> Seq<u32> {
    Seq::new(n, |i: int| col_width(spec, n, i))
}

fn resolve_col_widths(spec: Option<&str>, grid_cols: usize) -> (r: Vec<u32>)
    requires
        0 < grid_cols < 0x8000_0000,
    ensures
        r@ == col_widths(
            match spec {
                Some(s) => Some(s@),
                None => None,
            },
            grid_cols as nat,
        ),
{
    let ghost sp = match spec {
        Some(s) => Some(s@),
        None => None,
    };
    let default_each = CONTENT_WIDTH_DXA / grid_cols as u32;
    let parts: Vec<String> = match spec {
        Some(s) => split_char(s, ','),
        None => Vec::new(),
    };
    let mut out: Vec<u32> = Vec::new();
    let mut i: usize = 0;
    while i < grid_cols
        invariant
            i <= grid_cols < 0x8000_0000,
            default_each == (CONTENT_WIDTH_DXA / (grid_cols as u32)) as u32,
            sp is Some ==> views_of(parts@) == split_spec(sp->0, ','),
            sp is None ==> parts@.len() == 0,
            sp == match spec {
                Some(s) => Some(s@),
                None => None,
            },
            out@ == Seq::new(i as nat, |j: int| col_width(sp, grid_cols as nat, j)),
        decreases grid_cols - i,
    {
        let w = if i < parts.len() {
            let raw = trim(parts[i].as_str());
            proof {
                assert(views_of(parts@)[i as int] == parts@[i as int]@);
            }
            match parse_column_width(raw.as_str()) {
                Some(dxa) => dxa,
                None => default_each,
            }
        } else {
            default_each
        };
        proof {
            if sp is Some {
                assert(split_spec(sp->0, ',').len() == parts@.len());
            }
        }
        out.push(w);
        proof {
            assert(out@ =~= Seq::new((i + 1) as nat, |j: int| col_width(sp, grid_cols as nat, j)));
        }
        i = i + 1;
    }
    out
}

/// `a + b` on `u32` wrapping as a release build does.
pub open spec fn wadd(a: u32, b: u32) -> u32 {
    ((a + b) % 0x1_0000_0000) as u32
}

/// The widths of columns `start..start + span` (those that exist),
/// summed with `u32` arithmetic.
pub open spec fn width_sum(ws: Seq<u32>, start: int, span: int) -> u32
    decreases span,
{
    if span <= 0 || start + span - 1 >= ws.len() && start >= ws.len() {
        0
    } else if start + span - 1 >= ws.len() {
        width_sum(ws, start, span - 1)
    } else {
        wadd(width_sum(ws, start, span - 1), ws[start + span - 1])
    }
}

fn sum_widths(widths: &Vec<u32>, start: usize, span: usize) -> (r: u32)
    ensures
        r == width_sum(widths@, start as int, span as int),
{
    let mut total: u32 = 0;
    let mut k: usize = 0;
    while k < span
        invariant
            k <= span,
            total == width_sum(widths@, start as int, k as int),
        decreases span - k,
    {
        if start < widths.len() && k < widths.len() - start {
            total = total.wrapping_add(widths[start + k]);
        }
        k = k + 1;
    }
    total
}

// ------------------------------------------------------------------
// Table properties and grid
// ------------------------------------------------------------------

/// One border side.
pub open spec fn side_xml(pos: Seq<char>, val: Seq<char>, sz: Seq<char>) -> Seq<char> {
    empty_tag(
        "w:"@ + pos,
        seq![("w:val"@, val), ("w:sz"@, sz), ("w:space"@, "0"@), ("w:color"@, "auto"@)],
    )
}

/// `nil` borders on every position so Word doesn't draw the auto thin
/// lines; single lines around the outside; or single lines everywhere.
#[verifier::opaque]
pub open spec fn borders_xml(mode: BorderMode) -> Seq<char> {
    let (outer_v, outer_sz, inner_v, inner_sz) = match mode {
        BorderMode::Hidden => ("nil"@, "0"@, "nil"@, "0"@),
        BorderMode::Outer => ("single"@, "4"@, "nil"@, "0"@),
        BorderMode::All => ("single"@, "4"@, "single"@, "4"@),
    };
    element(
        "w:tblBorders"@,
        no_attrs(),
        side_xml("top"@, outer_v, outer_sz) + side_xml("left"@, outer_v, outer_sz) + side_xml(
            "bottom"@,
            outer_v,
            outer_sz,
        ) + side_xml("right"@, outer_v, outer_sz) + side_xml("insideH"@, inner_v, inner_sz)
            + side_xml("insideV"@, inner_v, inner_sz),
    )
}

pub open spec fn tbl_look_attrs() -> Seq<(Seq<char>, Seq<char>)> {
    seq![
        ("w:val"@, "04A0"@),
        ("w:firstRow"@, "1"@),
        ("w:lastRow"@, "0"@),
        ("w:firstColumn"@, "1"@),
        ("w:lastColumn"@, "0"@),
        ("w:noHBand"@, "0"@),
        ("w:noVBand"@, "1"@),
    ]
}

/// `<w:tblPr>`: auto width, optional left indent, borders, fixed layout
/// (so explicit column widths are honored), look flags.
pub open spec fn tbl_pr_xml(mode: BorderMode, indent: Option<u32>) -> Seq<char> {
    element(
        "w:tblPr"@,
        no_attrs(),
        empty_tag("w:tblW"@, attr2("w:w"@, "0"@, "w:type"@, "auto"@)) + (match indent {
            Some(i) => empty_tag("w:tblInd"@, attr2("w:w"@, dec(i as nat), "w:type"@, "dxa"@)),
            None => Seq::empty(),
        }) + borders_xml(mode) + empty_tag("w:tblLayout"@, attr1("w:type"@, "fixed"@)) + empty_tag(
            "w:tblLook"@,
            tbl_look_attrs(),
        ),
    )
}

/// The grid columns, in order.
pub open spec fn grid_cols_xml(ws: Seq<u32>) -> Seq<char>
    decreases ws.len(),
{
    if ws.len() == 0 {
        Seq::empty()
    } else {
        grid_cols_xml(ws.drop_last()) + empty_tag("w:gridCol"@, attr1("w:w"@, dec(ws.last() as nat)))
    }
}

fn side_into(x: &mut XmlBuf, pos: &str, val: &str, sz: &str)
    ensures
        final(x)@ == old(x)@ + side_xml(pos@, val@, sz@),
{
    let name = crate::text::concat2("w:", pos);
    proof {
        reveal_strlit("w:");
    }
    let a: &[(&str, &str)] = &[("w:val", val), ("w:sz", sz), ("w:space", "0"), ("w:color", "auto")];
    proof {
        assert(attr_views(a@) =~= seq![
            ("w:val"@, val@),
            ("w:sz"@, sz@),
            ("w:space"@, "0"@),
            ("w:color"@, "auto"@),
        ]);
    }
    x.empty(name.as_str(), a);
}

fn render_tbl_borders(x: &mut XmlBuf, mode: BorderMode)
    ensures
        final(x)@ == old(x)@ + borders_xml(mode),
{
    let (ov, osz, iv, isz) = match mode {
        BorderMode::Hidden => ("nil", "0", "nil", "0"),
        BorderMode::Outer => ("single", "4", "nil", "0"),
        BorderMode::All => ("single", "4", "single", "4"),
    };
    x.open0("w:tblBorders");
    let ghost s1 = x@;
    side_into(x, "top", ov, osz);
    side_into(x, "left", ov, osz);
    side_into(x, "bottom", ov, osz);
    side_into(x, "right", ov, osz);
    side_into(x, "insideH", iv, isz);
    side_into(x, "insideV", iv, isz);
    x.close("w:tblBorders");
    proof {
        reveal(borders_xml);
    }
}

fn render_tbl_pr(x: &mut XmlBuf, mode: BorderMode, indent_dxa: Option<u32>)
    ensures
        final(x)@ == old(x)@ + tbl_pr_xml(mode, indent_dxa),
{
    x.open0("w:tblPr");
    let ghost s1 = x@;
    x.empty2("w:tblW", "w:w", "0", "w:type", "auto");
    if let Some(ind) = indent_dxa {
        let s = u64_to_string(ind as u64);
        x.empty2("w:tblInd", "w:w", s.as_str(), "w:type", "dxa");
    }
    render_tbl_borders(x, mode);
    // Fixed layout keeps explicit column widths honored.
    x.empty1("w:tblLayout", "w:type", "fixed");
    let a: &[(&str, &str)] = &[
        ("w:val", "04A0"),
        ("w:firstRow", "1"),
        ("w:lastRow", "0"),
        ("w:firstColumn", "1"),
        ("w:lastColumn", "0"),
        ("w:noHBand", "0"),
        ("w:noVBand", "1"),
    ];
    proof {
        assert(attr_views(a@) =~= tbl_look_attrs());
    }
    x.empty("w:tblLook", a);
    x.close("w:tblPr");
}

fn render_tbl_grid(x: &mut XmlBuf, col_widths: &Vec<u32>)
    ensures
        final(x)@ == old(x)@ + element("w:tblGrid"@, no_attrs(), grid_cols_xml(col_widths@)),
{
    x.open0("w:tblGrid");
    let ghost s1 = x@;
    let mut i: usize = 0;
    while i < col_widths.len()
        invariant
            i <= col_widths@.len(),
            x@ == s1 + grid_cols_xml(col_widths@.take(i as int)),
        decreases col_widths@.len() - i,
    {
        let s = u64_to_string(col_widths[i] as u64);
        x.empty1("w:gridCol", "w:w", s.as_str());
        proof {
            assert(col_widths@.take(i + 1).drop_last() =~= col_widths@.take(i as int));
        }
        i = i + 1;
    }
    proof {
        assert(col_widths@.take(i as int) =~= col_widths@);
    }
    x.close("w:tblGrid");
}

// ------------------------------------------------------------------
// Cells
// ------------------------------------------------------------------

/// `o` if set, else the current optional value `d`.
pub open spec fn or_else<T>(o: Option<T>, d: Option<T>) -> Option<T> {
    if o is Some {
        o
    } else {
        d
    }
}

/// A block's `align` as `w:jc`, if known.
pub open spec fn prop_jc(b: Block) -> Option<Seq<char>> {
    match lookup_str(b.properties@, "align"@) {
        Some(v) => jc_of(v),
        None => None,
    }
}

/// A cell's `valign` as `w:vAlign`, if known.
pub open spec fn prop_valign(b: Block) -> Option<Seq<char>> {
    match lookup_str(b.properties@, "valign"@) {
        Some(v) => valign_of(v),
        None => None,
    }
}

/// The run properties cell text starts from: bold in header rows, the
/// cascaded color.
pub open spec fn cell_base(is_header: bool, color: Option<Seq<char>>) -> RPrView {
    RPrView { bold: is_header, color, ..plain_rpr() }
}

/// One paragraph of a cell: its own alignment or the cell's, then the
/// block's runs over the inherited properties.
#[verifier::opaque]
pub open spec fn cell_para_out(b: Block, cell_align: Option<Seq<char>>, base: RPrView, s: RunState) -> (
    Seq<char>,
    RunState,
) {
    let jc = or_else(prop_jc(b), cell_align);
    let (o, s1) = body_out(b, base, s);
    (
        element(
            "w:p"@,
            no_attrs(),
            (match jc {
                Some(j) => element("w:pPr"@, no_attrs(), empty_tag("w:jc"@, attr1("w:val"@, j))),
                None => Seq::empty(),
            }) + o,
        ),
        s1,
    )
}

/// Paragraphs for the children `k..` of a cell.
pub open spec fn paras_from(
    ks: Seq<Block>,
    k: nat,
    cell_align: Option<Seq<char>>,
    base: RPrView,
    s: RunState,
) -> (Seq<char>, RunState)
    decreases ks.len() - k,
{
    if k >= ks.len() {
        (Seq::empty(), s)
    } else {
        let (o1, s1) = cell_para_out(ks[k as int], cell_align, base, s);
        let (o2, s2) = paras_from(ks, k + 1, cell_align, base, s1);
        (o1 + o2, s2)
    }
}

/// A cell's content: a text body is one paragraph, each child block is
/// one; a cell with no paragraph gets an empty one, as Word requires.
pub open spec fn cell_paras_out(cell: Block, base: RPrView, s: RunState) -> (Seq<char>, RunState) {
    match cell.body {
        Body::Text(_) => cell_para_out(cell, prop_jc(cell), base, s),
        Body::Children(ks) => if ks@.len() == 0 {
            (empty_tag("w:p"@, no_attrs()), s)
        } else {
            paras_from(ks@, 0, prop_jc(cell), base, s)
        },
        Body::Empty => (empty_tag("w:p"@, no_attrs()), s),
    }
}

/// `<w:tcPr>` in canonical order: tcW → gridSpan → vMerge → shd → vAlign.
pub open spec fn tc_pr_xml(
    w: u32,
    colspan: nat,
    rowspan: nat,
    bg: Option<Seq<char>>,
    valign: Option<Seq<char>>,
) -> Seq<char> {
    element(
        "w:tcPr"@,
        no_attrs(),
        empty_tag("w:tcW"@, attr2("w:w"@, dec(w as nat), "w:type"@, "dxa"@)) + (if colspan > 1 {
            empty_tag("w:gridSpan"@, attr1("w:val"@, dec(colspan)))
        } else {
            Seq::empty()
        }) + (if rowspan > 1 {
            empty_tag("w:vMerge"@, attr1("w:val"@, "restart"@))
        } else {
            Seq::empty()
        }) + (match bg {
            Some(fill) => empty_tag(
                "w:shd"@,
                attr3("w:val"@, "clear"@, "w:color"@, "auto"@, "w:fill"@, fill),
            ),
            None => Seq::empty(),
        }) + match valign {
            Some(v) => empty_tag("w:vAlign"@, attr1("w:val"@, v)),
            None => Seq::empty(),
        },
    )
}

/// One source cell.
#[verifier::opaque]
pub open spec fn tc_out(
    cell: Block,
    is_header: bool,
    colspan: nat,
    rowspan: nat,
    w: u32,
    bg: Option<Seq<char>>,
    color: Option<Seq<char>>,
    s: RunState,
) -> (Seq<char>, RunState) {
    let (paras, s1) = cell_paras_out(cell, cell_base(is_header, color), s);
    (
        element("w:tc"@, no_attrs(), tc_pr_xml(w, colspan, rowspan, bg, prop_valign(cell)) + paras),
        s1,
    )
}

/// The continuation cell of a vertical merge: same width and span, an
/// empty `vMerge` and an empty paragraph.
pub open spec fn continuation_xml(span: nat, w: u32) -> Seq<char> {
    element(
        "w:tc"@,
        no_attrs(),
        element(
            "w:tcPr"@,
            no_attrs(),
            empty_tag("w:tcW"@, attr2("w:w"@, dec(w as nat), "w:type"@, "dxa"@)) + (if span > 1 {
                empty_tag("w:gridSpan"@, attr1("w:val"@, dec(span)))
            } else {
                Seq::empty()
            }) + empty_tag("w:vMerge"@, no_attrs()),
        ) + empty_tag("w:p"@, no_attrs()),
    )
}

fn prop_jc_exec(b: &Block) -> (r: Option<&'static str>)
    ensures
        match r {
            Some(v) => prop_jc(*b) == Some(v@),
            None => prop_jc(*b) is None,
        },
{
    match b.prop_str("align") {
        Some(v) => map_jc(v),
        None => None,
    }
}

fn emit_cell_paragraph(
    b: &Block,
    cell_align: Option<&'static str>,
    base: &RPr,
    ctx: &mut EmitCtx,
    x: &mut XmlBuf,
)
    ensures
        ({
            let ca = match cell_align {
                Some(a) => Some(a@),
                None => None,
            };
            &&& final(x)@ == old(x)@ + cell_para_out(*b, ca, base@, run_state(*old(ctx))).0
            &&& run_state(*final(ctx)) == cell_para_out(*b, ca, base@, run_state(*old(ctx))).1
        }),
        run_frame(*old(ctx), *final(ctx)),
{
    x.open0("w:p");
    let child_align = prop_jc_exec(b);
    let jc = match child_align {
        Some(j) => Some(j),
        None => cell_align,
    };
    if let Some(j) = jc {
        x.open0("w:pPr");
        x.empty1("w:jc", "w:val", j);
        x.close("w:pPr");
    }
    // Reuse the run dispatcher with the inherited rPr (so header cells
    // get bold runs).
    render_body_with(b, ctx, x, base);
    x.close("w:p");
    proof {
        reveal(cell_para_out);
    }
}

fn paras_into(
    children: &Vec<Block>,
    cell_align: Option<&'static str>,
    base: &RPr,
    ctx: &mut EmitCtx,
    x: &mut XmlBuf,
)
    ensures
        ({
            let ca = match cell_align {
                Some(a) => Some(a@),
                None => None,
            };
            &&& final(x)@ == old(x)@ + paras_from(children@, 0, ca, base@, run_state(*old(ctx))).0
            &&& run_state(*final(ctx)) == paras_from(children@, 0, ca, base@, run_state(*old(ctx))).1
        }),
        run_frame(*old(ctx), *final(ctx)),
{
    let ghost ca = match cell_align {
        Some(a) => Some(a@),
        None => None,
    };
    let ghost x0 = x@;
    let ghost s0 = run_state(*ctx);
    let ghost c0 = *ctx;
    let mut i: usize = 0;
    while i < children.len()
        invariant
            i <= children@.len(),
            ca == match cell_align {
                Some(a) => Some(a@),
                None => None,
            },
            x0 + paras_from(children@, 0, ca, base@, s0).0 == x@ + paras_from(
                children@,
                i as nat,
                ca,
                base@,
                run_state(*ctx),
            ).0,
            paras_from(children@, i as nat, ca, base@, run_state(*ctx)).1 == paras_from(
                children@,
                0,
                ca,
                base@,
                s0,
            ).1,
            run_frame(c0, *ctx),
        decreases children@.len() - i,
    {
        emit_cell_paragraph(&children[i], cell_align, base, ctx, x);
        i = i + 1;
    }
}

/// Emit a cell's paragraphs; returns nothing, but always at least one
/// paragraph (Word requires it).
fn emit_cell_paragraphs(cell: &Block, base: &RPr, ctx: &mut EmitCtx, x: &mut XmlBuf)
    ensures
        final(x)@ == old(x)@ + cell_paras_out(*cell, base@, run_state(*old(ctx))).0,
        run_state(*final(ctx)) == cell_paras_out(*cell, base@, run_state(*old(ctx))).1,
        run_frame(*old(ctx), *final(ctx)),
{
    let cell_align = prop_jc_exec(cell);
    let ghost ca = match cell_align {
        Some(a) => Some(a@),
        None => None,
    };
    match &cell.body {
        Body::Empty => {
            x.empty0("w:p");
        },
        Body::Text(_) => {
            emit_cell_paragraph(cell, cell_align, base, ctx, x);
        },
        Body::Children(children) => {
            if children.len() == 0 {
                // Word requires every cell to contain at least one paragraph.
                x.empty0("w:p");
            } else {
                paras_into(children, cell_align, base, ctx, x);
            }
        },
    }
}

fn render_continuation_tc(grid_span: usize, tcw_dxa: u32, x: &mut XmlBuf)
    ensures
        final(x)@ == old(x)@ + continuation_xml(grid_span as nat, tcw_dxa),
{
    let w = u64_to_string(tcw_dxa as u64);
    x.open0("w:tc");
    x.open0("w:tcPr");
    x.empty2("w:tcW", "w:w", w.as_str(), "w:type", "dxa");
    if grid_span > 1 {
        let span_s = u64_to_string(grid_span as u64);
        x.empty1("w:gridSpan", "w:val", span_s.as_str());
    }
    // Empty val => continue.
    x.empty0("w:vMerge");
    x.close("w:tcPr");
    x.empty0("w:p");
    x.close("w:tc");
}

fn render_tc_pr(
    x: &mut XmlBuf,
    w: u32,
    colspan: usize,
    rowspan: u32,
    bg: &Option<String>,
    valign: Option<&'static str>,
)
    ensures
        final(x)@ == old(x)@ + tc_pr_xml(
            w,
            colspan as nat,
            rowspan as nat,
            crate::text::ov(*bg),
            match valign {
                Some(v) => Some(v@),
                None => None,
            },
        ),
{
    let w_s = u64_to_string(w as u64);
    x.open0("w:tcPr");
    let ghost s1 = x@;
    x.empty2("w:tcW", "w:w", w_s.as_str(), "w:type", "dxa");
    if colspan > 1 {
        let span_s = u64_to_string(colspan as u64);
        x.empty1("w:gridSpan", "w:val", span_s.as_str());
    }
    if rowspan > 1 {
        x.empty1("w:vMerge", "w:val", "restart");
    }
    if let Some(fill) = bg {
        x.empty3("w:shd", "w:val", "clear", "w:color", "auto", "w:fill", fill.as_str());
    }
    if let Some(va) = valign {
        x.empty1("w:vAlign", "w:val", va);
    }
    x.close("w:tcPr");
}

fn prop_valign_exec(b: &Block) -> (r: Option<&'static str>)
    ensures
        match r {
            Some(v) => prop_valign(*b) == Some(v@),
            None => prop_valign(*b) is None,
        },
{
    match b.prop_str("valign") {
        Some(v) => map_valign(v),
        None => None,
    }
}

fn render_tc(
    cell: &Block,
    is_header: bool,
    colspan: usize,
    rowspan: u32,
    tcw_dxa: u32,
    force_bg: Option<String>,
    color: Option<String>,
    ctx: &mut EmitCtx,
    x: &mut XmlBuf,
)
    ensures
        final(x)@ == old(x)@ + tc_out(
            *cell,
            is_header,
            colspan as nat,
            rowspan as nat,
            tcw_dxa,
            crate::text::ov(force_bg),
            crate::text::ov(color),
            run_state(*old(ctx)),
        ).0,
        run_state(*final(ctx)) == tc_out(
            *cell,
            is_header,
            colspan as nat,
            rowspan as nat,
            tcw_dxa,
            crate::text::ov(force_bg),
            crate::text::ov(color),
            run_state(*old(ctx)),
        ).1,
        run_frame(*old(ctx), *final(ctx)),
{
    let valign = prop_valign_exec(cell);
    x.open0("w:tc");
    // <w:tcPr> children in canonical order: tcW → gridSpan → vMerge →
    // shd → vAlign.
    render_tc_pr(x, tcw_dxa, colspan, rowspan, &force_bg, valign);
    // Cell content — at least one paragraph required, even if the cell is
    // "empty".
    let mut base = RPr::default_value();
    base.bold = is_header;
    base.color = color;
    emit_cell_paragraphs(cell, &base, ctx, x);
    x.close("w:tc");
    proof {
        reveal(tc_out);
    }
}

// ------------------------------------------------------------------
// Rows and vertical merges
// ------------------------------------------------------------------

/// A grid slot still covered by a cell from an earlier row.
#[derive(Clone, Copy, PartialEq, Eq, Structural)]
pub struct RowspanCarry {
    /// Remaining rows that still need a continuation cell at this grid
    /// slot (after the current row's emission).
    pub remaining: u32,
    /// Grid columns the carry spans — the continuation cell repeats the
    /// same gridSpan to keep the row width right.
    pub grid_span: usize,
}

pub open spec fn no_carry() -> RowspanCarry {
    RowspanCarry { remaining: 0, grid_span: 0 }
}

/// One row consumed of the carries at slots `g..g + n`.
pub open spec fn dec_slots(p: Seq<RowspanCarry>, g: int, n: int) -> Seq<RowspanCarry> {
    Seq::new(
        p.len(),
        |i: int|
            if g <= i < g + n {
                RowspanCarry {
                    remaining: if p[i].remaining > 0 {
                        (p[i].remaining - 1) as u32
                    } else {
                        0
                    },
                    grid_span: p[i].grid_span,
                }
            } else {
                p[i]
            },
    )
}

/// The carries padded with `filler` slots to at least `n`.
pub open spec fn extend_with(p: Seq<RowspanCarry>, n: int, filler: RowspanCarry) -> Seq<RowspanCarry> {
    if p.len() >= n {
        p
    } else {
        p + Seq::new((n - p.len()) as nat, |i: int| filler)
    }
}

/// The carries after a cell at slot `g`: padded with `filler` to cover
/// it, and, when it spans rows, a carry at `g` for the remaining rows
/// over its columns, its other columns reset to `filler`.
pub open spec fn place_with(
    p: Seq<RowspanCarry>,
    g: int,
    colspan: nat,
    rowspan: nat,
    filler: RowspanCarry,
) -> Seq<RowspanCarry> {
    let q = extend_with(p, g + colspan, filler);
    if rowspan > 1 {
        Seq::new(
            q.len(),
            |i: int|
                if i == g {
                    RowspanCarry { remaining: (rowspan - 1) as u32, grid_span: colspan as usize }
                } else if g < i < g + colspan {
                    filler
                } else {
                    q[i]
                },
        )
    } else {
        q
    }
}

/// The carries after a cell at slot `g`, padded with empty slots.
pub open spec fn place(p: Seq<RowspanCarry>, g: int, colspan: nat, rowspan: nat) -> Seq<RowspanCarry> {
    place_with(p, g, colspan, rowspan, no_carry())
}

/// The carries without trailing exhausted entries.
pub open spec fn trim_tail(p: Seq<RowspanCarry>) -> Seq<RowspanCarry>
    decreases p.len(),
{
    if p.len() > 0 && p.last().remaining == 0 {
        trim_tail(p.drop_last())
    } else {
        p
    }
}

/// What a row's cells inherit.
pub struct RowEnv {
    pub is_header: bool,
    pub stripe: bool,
    pub data_idx: nat,
    pub widths: Seq<u32>,
    pub row_bg: Option<Seq<char>>,
    pub row_color: Option<Seq<char>>,
}

/// Cell fill cascade: the cell's own `bg` > the row's > the stripe of odd
/// data rows.
pub open spec fn cell_bg(c: Block, env: RowEnv) -> Option<Seq<char>> {
    or_else(
        prop_hex(c, "bg"@),
        or_else(
            env.row_bg,
            if !env.is_header && env.stripe && env.data_idx % 2 == 1 {
                Some(stripe_fill())
            } else {
                None
            },
        ),
    )
}

/// Cell color cascade: the cell's own `color` > the row's.
pub open spec fn cell_color(c: Block, env: RowEnv) -> Option<Seq<char>> {
    or_else(prop_hex(c, "color"@), env.row_color)
}

pub open spec fn gap(len: nat, g: nat) -> nat {
    if g < len {
        (len - g) as nat
    } else {
        0
    }
}

pub open spec fn left(n: nat, k: nat) -> nat {
    if k < n {
        (n - k) as nat
    } else {
        0
    }
}

/// The cells of a row from source cell `k` and grid slot `g` on, with
/// the carries `p`: a slot still covered from above gets a continuation
/// cell; otherwise the next source cell goes there. Returns the markup,
/// the carries afterwards and the run state.
#[verifier::opaque]
pub open spec fn row_cells_from(
    cells: Seq<Block>,
    k: nat,
    g: nat,
    p: Seq<RowspanCarry>,
    env: RowEnv,
    s: RunState,
) -> (Seq<char>, Seq<RowspanCarry>, RunState)
    decreases left(cells.len(), k), gap(p.len(), g),
{
    if g < p.len() && p[g as int].remaining > 0 {
        let sp = p[g as int].grid_span as nat;
        if sp == 0 {
            (Seq::empty(), p, s)
        } else {
            let (o, p2, s2) = row_cells_from(cells, k, g + sp, dec_slots(p, g as int, sp as int), env, s);
            (continuation_xml(sp, width_sum(env.widths, g as int, sp as int)) + o, p2, s2)
        }
    } else if k < cells.len() {
        let c = cells[k as int];
        let cs = colspan_of(c);
        let rs = rowspan_of(c);
        let (o1, s1) = tc_out(
            c,
            env.is_header,
            cs,
            rs,
            width_sum(env.widths, g as int, cs as int),
            cell_bg(c, env),
            cell_color(c, env),
            s,
        );
        let (o, p2, s2) = row_cells_from(cells, k + 1, g + cs, place(p, g as int, cs, rs), env, s1);
        (o1 + o, p2, s2)
    } else {
        (Seq::empty(), p, s)
    }
}

/// Unfolding at a covered slot.
proof fn lemma_row_cont(cells: Seq<Block>, k: nat, g: nat, p: Seq<RowspanCarry>, env: RowEnv, s: RunState)
    requires
        g < p.len(),
        p[g as int].remaining > 0,
        p[g as int].grid_span > 0,
    ensures
        ({
            let sp = p[g as int].grid_span as nat;
            let (o, p2, s2) = row_cells_from(cells, k, g + sp, dec_slots(p, g as int, sp as int), env, s);
            row_cells_from(cells, k, g, p, env, s) == (
                continuation_xml(sp, width_sum(env.widths, g as int, sp as int)) + o,
                p2,
                s2,
            )
        }),
{
    reveal(row_cells_from);
}

/// Unfolding at a free slot with a source cell left.
proof fn lemma_row_cell(cells: Seq<Block>, k: nat, g: nat, p: Seq<RowspanCarry>, env: RowEnv, s: RunState)
    requires
        !(g < p.len() && p[g as int].remaining > 0),
        k < cells.len(),
    ensures
        ({
            let c = cells[k as int];
            let cs = colspan_of(c);
            let rs = rowspan_of(c);
            let (o1, s1) = tc_out(
                c,
                env.is_header,
                cs,
                rs,
                width_sum(env.widths, g as int, cs as int),
                cell_bg(c, env),
                cell_color(c, env),
                s,
            );
            let (o, p2, s2) = row_cells_from(cells, k + 1, g + cs, place(p, g as int, cs, rs), env, s1);
            row_cells_from(cells, k, g, p, env, s) == (o1 + o, p2, s2)
        }),
{
    reveal(row_cells_from);
}

/// Nothing left to place.
proof fn lemma_row_done(cells: Seq<Block>, k: nat, g: nat, p: Seq<RowspanCarry>, env: RowEnv, s: RunState)
    requires
        !(g < p.len() && p[g as int].remaining > 0),
        k >= cells.len(),
    ensures
        row_cells_from(cells, k, g, p, env, s) == (Seq::<char>::empty(), p, s),
{
    reveal(row_cells_from);
}

/// The carries a row leaves keep every slot left of where it started.
#[verifier::rlimit(50)]
#[verifier::spinoff_prover]
proof fn lemma_row_keep(
    cells: Seq<Block>,
    k: nat,
    g: nat,
    p: Seq<RowspanCarry>,
    env: RowEnv,
    s: RunState,
    j: int,
)
    requires
        0 <= j < g,
        j < p.len(),
    ensures
        j < row_cells_from(cells, k, g, p, env, s).1.len(),
        row_cells_from(cells, k, g, p, env, s).1[j] == p[j],
    decreases left(cells.len(), k), gap(p.len(), g),
{
    if g < p.len() && p[g as int].remaining > 0 {
        let sp = p[g as int].grid_span as nat;
        if sp == 0 {
            reveal(row_cells_from);
        } else {
            lemma_row_cont(cells, k, g, p, env, s);
            lemma_row_keep(cells, k, g + sp, dec_slots(p, g as int, sp as int), env, s, j);
        }
    } else if k < cells.len() {
        lemma_row_cell(cells, k, g, p, env, s);
        let c = cells[k as int];
        let cs = colspan_of(c);
        let rs = rowspan_of(c);
        let (o1, s1) = tc_out(
            c,
            env.is_header,
            cs,
            rs,
            width_sum(env.widths, g as int, cs as int),
            cell_bg(c, env),
            cell_color(c, env),
            s,
        );
        let e = extend_with(p, (g + cs) as int, no_carry());
        assert(e[j] == p[j]);
        assert(place(p, g as int, cs, rs)[j] == p[j]);
        lemma_row_keep(cells, k + 1, g + cs, place(p, g as int, cs, rs), env, s1, j);
    } else {
        lemma_row_done(cells, k, g, p, env, s);
    }
}

/// Dropping trailing exhausted carries keeps every live one.
pub(crate) proof fn lemma_trim_keeps(p: Seq<RowspanCarry>, j: int)
    requires
        0 <= j < p.len(),
        p[j].remaining > 0,
    ensures
        j < trim_tail(p).len(),
        trim_tail(p)[j] == p[j],
    decreases p.len(),
{
    if p.len() > 0 && p.last().remaining == 0 {
        lemma_trim_keeps(p.drop_last(), j);
    }
}

/// After a row that no cell above spans into, whose first cell spans
/// `rs > 1` rows, slot 0 carries that cell for `rs - 1` more rows.
proof fn lemma_first_carry(cells: Seq<Block>, p: Seq<RowspanCarry>, env: RowEnv, s: RunState)
    requires
        forall|j: int| 0 <= j < p.len() ==> (#[trigger] p[j]).remaining == 0,
        cells.len() > 0,
        rowspan_of(cells[0]) > 1,
    ensures
        0 < row_cells_from(cells, 0, 0, p, env, s).1.len(),
        row_cells_from(cells, 0, 0, p, env, s).1[0] == (RowspanCarry {
            remaining: (rowspan_of(cells[0]) - 1) as u32,
            grid_span: colspan_of(cells[0]) as usize,
        }),
{
    let c = cells[0];
    let cs = colspan_of(c);
    let rs = rowspan_of(c);
    assert(cs >= 1);
    lemma_row_cell(cells, 0, 0, p, env, s);
    let s1 = tc_out(
        c,
        env.is_header,
        cs,
        rs,
        width_sum(env.widths, 0, cs as int),
        cell_bg(c, env),
        cell_color(c, env),
        s,
    ).1;
    let q = place(p, 0, cs, rs);
    assert(q[0] == RowspanCarry { remaining: (rs - 1) as u32, grid_span: cs as usize });
    lemma_row_keep(cells, 1, cs, q, env, s1, 0);
}

/// The carries a row leaves: its cells' carries, trailing exhausted
/// ones dropped.
proof fn lemma_row_out_carries(
    row: Block,
    is_header: bool,
    stripe: bool,
    data_idx: nat,
    widths: Seq<u32>,
    th: Option<u32>,
    trule: Option<Seq<char>>,
    p: Seq<RowspanCarry>,
    s: RunState,
)
    ensures
        row_out(row, is_header, stripe, data_idx, widths, th, trule, p, s).1 == trim_tail(
            row_cells_from(cells_of(row), 0, 0, p, row_env(row, is_header, stripe, data_idx, widths), s).1,
        ),
{
}

/// Cells whose slot 0 is covered from above start with a continuation
/// cell of the carry's span.
proof fn lemma_starts_with_continuation(cells: Seq<Block>, t: Seq<RowspanCarry>, env: RowEnv, s: RunState)
    requires
        0 < t.len(),
        t[0].remaining > 0,
        t[0].grid_span > 0,
    ensures
        continuation_xml(t[0].grid_span as nat, width_sum(env.widths, 0, t[0].grid_span as int)).is_prefix_of(
            row_cells_from(cells, 0, 0, t, env, s).0,
        ),
{
    let sp = t[0].grid_span as nat;
    lemma_row_cont(cells, 0, 0, t, env, s);
    let x = continuation_xml(sp, width_sum(env.widths, 0, sp as int));
    let rest = row_cells_from(cells, 0, sp, dec_slots(t, 0, sp as int), env, s).0;
    assert((x + rest).take(x.len() as int) =~= x);
}

/// A cell spanning rows continues into the row below: when the first
/// cell of a row that no cell above spans into spans more than one row,
/// the cells of the next row start with a continuation cell (a
/// `vMerge` continuation) of the same grid span, over the same columns.
pub proof fn lemma_rowspan_continues(
    row: Block,
    is_header: bool,
    stripe: bool,
    data_idx: nat,
    widths: Seq<u32>,
    th: Option<u32>,
    trule: Option<Seq<char>>,
    p: Seq<RowspanCarry>,
    s: RunState,
    below: Block,
    env_below: RowEnv,
    s_below: RunState,
)
    requires
        forall|j: int| 0 <= j < p.len() ==> (#[trigger] p[j]).remaining == 0,
        cells_of(row).len() > 0,
        rowspan_of(cells_of(row)[0]) > 1,
    ensures
        ({
            let carries = row_out(row, is_header, stripe, data_idx, widths, th, trule, p, s).1;
            let cs = colspan_of(cells_of(row)[0]);
            continuation_xml(cs, width_sum(env_below.widths, 0, cs as int)).is_prefix_of(
                row_cells_from(cells_of(below), 0, 0, carries, env_below, s_below).0,
            )
        }),
{
    let cells = cells_of(row);
    let env = row_env(row, is_header, stripe, data_idx, widths);
    lemma_first_carry(cells, p, env, s);
    let p2 = row_cells_from(cells, 0, 0, p, env, s).1;
    lemma_trim_keeps(p2, 0);
    lemma_row_out_carries(row, is_header, stripe, data_idx, widths, th, trule, p, s);
    lemma_starts_with_continuation(cells_of(below), trim_tail(p2), env_below, s_below);
}

/// Carries within `t` grid columns: every live carry spans at least one
/// column and ends by `t`.
pub open spec fn carries_ok(p: Seq<RowspanCarry>, t: nat) -> bool {
    &&& p.len() <= t
    &&& forall|j: int|
        0 <= j < p.len() && #[trigger] p[j].remaining > 0 ==> p[j].grid_span >= 1 && j
            + p[j].grid_span <= t
}

pub(crate) proof fn lemma_dec_ok(p: Seq<RowspanCarry>, t: nat, g: int, n: int)
    requires
        carries_ok(p, t),
    ensures
        carries_ok(dec_slots(p, g, n), t),
{
    let q = dec_slots(p, g, n);
    assert forall|j: int| 0 <= j < q.len() && #[trigger] q[j].remaining > 0 implies q[j].grid_span >= 1
        && j + q[j].grid_span <= t by {
        assert(p[j].remaining > 0);
    }
}

pub(crate) proof fn lemma_place_with_ok(
    p: Seq<RowspanCarry>,
    t: nat,
    g: nat,
    colspan: nat,
    rowspan: nat,
    filler: RowspanCarry,
)
    requires
        carries_ok(p, t),
        g <= t,
        colspan >= 1,
        t + colspan <= usize::MAX,
        filler.remaining == 0,
    ensures
        carries_ok(place_with(p, g as int, colspan, rowspan, filler), t + colspan),
        place_with(p, g as int, colspan, rowspan, filler).len() >= g + colspan,
{
    let q = extend_with(p, (g + colspan) as int, filler);
    assert forall|j: int| 0 <= j < q.len() && #[trigger] q[j].remaining > 0 implies q[j].grid_span >= 1
        && j + q[j].grid_span <= t + colspan by {
        if j < p.len() {
            assert(q[j] == p[j]);
        } else {
            assert(q[j] == filler);
        }
    }
    let r = place_with(p, g as int, colspan, rowspan, filler);
    assert forall|j: int| 0 <= j < r.len() && #[trigger] r[j].remaining > 0 implies r[j].grid_span >= 1
        && j + r[j].grid_span <= t + colspan by {
        if rowspan > 1 && j != g && !(g < j < g + colspan) {
            assert(r[j] == q[j]);
        }
    }
}

proof fn lemma_place_ok(p: Seq<RowspanCarry>, t: nat, g: nat, colspan: nat, rowspan: nat)
    requires
        carries_ok(p, t),
        g <= t,
        colspan >= 1,
        t + colspan <= usize::MAX,
    ensures
        carries_ok(place(p, g as int, colspan, rowspan), t + colspan),
        place(p, g as int, colspan, rowspan).len() >= g + colspan,
{
    lemma_place_with_ok(p, t, g, colspan, rowspan, no_carry());
}

pub(crate) proof fn lemma_trim_ok(p: Seq<RowspanCarry>, t: nat)
    requires
        carries_ok(p, t),
    ensures
        carries_ok(trim_tail(p), t),
        trim_tail(p).len() <= p.len(),
        forall|j: int| 0 <= j < trim_tail(p).len() ==> #[trigger] trim_tail(p)[j] == p[j],
    decreases p.len(),
{
    if p.len() > 0 && p.last().remaining == 0 {
        let d = p.drop_last();
        assert forall|j: int| 0 <= j < d.len() && #[trigger] d[j].remaining > 0 implies d[j].grid_span
            >= 1 && j + d[j].grid_span <= t by {
            assert(d[j] == p[j]);
        }
        lemma_trim_ok(d, t);
    }
}

pub(crate) fn dec_carries(pending: &mut Vec<RowspanCarry>, g: usize, span: usize)
    requires
        g + span <= usize::MAX,
    ensures
        final(pending)@ == dec_slots(old(pending)@, g as int, span as int),
{
    let ghost p0 = pending@;
    let mut i: usize = 0;
    while i < span
        invariant
            i <= span,
            g + span <= usize::MAX,
            pending@ == dec_slots(p0, g as int, i as int),
        decreases span - i,
    {
        if g + i < pending.len() {
            let mut slot = pending[g + i];
            slot.remaining = if slot.remaining > 0 {
                slot.remaining - 1
            } else {
                0
            };
            pending.set(g + i, slot);
        }
        proof {
            assert(pending@ =~= dec_slots(p0, g as int, i + 1));
        }
        i = i + 1;
    }
}

pub(crate) fn place_cell_with(
    pending: &mut Vec<RowspanCarry>,
    g: usize,
    colspan: usize,
    rowspan: u32,
    filler: RowspanCarry,
)
    requires
        g + colspan <= usize::MAX,
        colspan >= 1,
    ensures
        final(pending)@ == place_with(old(pending)@, g as int, colspan as nat, rowspan as nat, filler),
{
    let ghost p0 = pending@;
    while pending.len() < g + colspan
        invariant
            g + colspan <= usize::MAX,
            p0.len() <= pending@.len(),
            pending@.len() <= if p0.len() >= g + colspan {
                p0.len() as int
            } else {
                g + colspan
            },
            pending@ == p0 + Seq::new((pending@.len() - p0.len()) as nat, |i: int| filler),
        decreases g + colspan - pending@.len(),
    {
        pending.push(filler);
        proof {
            assert(pending@ =~= p0 + Seq::new((pending@.len() - p0.len()) as nat, |i: int| filler));
        }
    }
    proof {
        if p0.len() >= g + colspan {
            assert(pending@ =~= p0);
        }
        assert(pending@ =~= extend_with(p0, (g + colspan) as int, filler));
    }
    let ghost q = pending@;
    if rowspan > 1 {
        pending.set(g, RowspanCarry { remaining: rowspan - 1, grid_span: colspan });
        let mut i: usize = 1;
        while i < colspan
            invariant
                1 <= i <= colspan,
                g + colspan <= usize::MAX,
                q.len() >= g + colspan,
                pending@ == Seq::new(
                    q.len(),
                    |j: int|
                        if j == g {
                            RowspanCarry { remaining: (rowspan - 1) as u32, grid_span: colspan }
                        } else if g < j < g + i {
                            filler
                        } else {
                            q[j]
                        },
                ),
            decreases colspan - i,
        {
            pending.set(g + i, filler);
            proof {
                assert(pending@ =~= Seq::new(
                    q.len(),
                    |j: int|
                        if j == g {
                            RowspanCarry { remaining: (rowspan - 1) as u32, grid_span: colspan }
                        } else if g < j < g + i + 1 {
                            filler
                        } else {
                            q[j]
                        },
                ));
            }
            i = i + 1;
        }
        proof {
            assert(pending@ =~= place_with(p0, g as int, colspan as nat, rowspan as nat, filler));
        }
    }
}

fn place_cell(pending: &mut Vec<RowspanCarry>, g: usize, colspan: usize, rowspan: u32)
    requires
        g + colspan <= usize::MAX,
        colspan >= 1,
    ensures
        final(pending)@ == place(old(pending)@, g as int, colspan as nat, rowspan as nat),
{
    place_cell_with(pending, g, colspan, rowspan, RowspanCarry { remaining: 0, grid_span: 0 });
}

pub(crate) fn trim_carries(pending: &mut Vec<RowspanCarry>)
    ensures
        final(pending)@ == trim_tail(old(pending)@),
{
    let ghost p0 = pending@;
    while pending.len() > 0 && pending[pending.len() - 1].remaining == 0
        invariant
            trim_tail(pending@) == trim_tail(p0),
        decreases pending@.len(),
    {
        let ghost before = pending@;
        pending.pop();
        proof {
            assert(pending@ =~= before.drop_last());
        }
    }
}

/// The row's `trPr`: height (with its rule) and the header marker that
/// repeats the row across page breaks.
pub open spec fn tr_pr_xml(h: Option<u32>, rule: Option<Seq<char>>, is_header: bool) -> Seq<char> {
    if is_header || h is Some {
        element(
            "w:trPr"@,
            no_attrs(),
            (match h {
                Some(v) => empty_tag(
                    "w:trHeight"@,
                    seq![("w:val"@, dec(v as nat))] + match rule {
                        Some(r) => seq![("w:hRule"@, r)],
                        None => Seq::empty(),
                    },
                ),
                None => Seq::empty(),
            }) + if is_header {
                empty_tag("w:tblHeader"@, no_attrs())
            } else {
                Seq::empty()
            },
        )
    } else {
        Seq::empty()
    }
}

pub open spec fn row_env(row: Block, is_header: bool, stripe: bool, data_idx: nat, widths: Seq<u32>) -> RowEnv {
    RowEnv {
        is_header,
        stripe,
        data_idx,
        widths,
        row_bg: prop_hex(row, "bg"@),
        row_color: prop_hex(row, "color"@),
    }
}

/// A cell's fill: its own `bg`, where that is a hex color, whatever its
/// row and striping say; else its row's `bg`, where that is a hex color;
/// else the light grey stripe on odd data rows of a striped table, and no
/// fill otherwise. Its text color likewise comes from its own `color`
/// before its row's.
pub proof fn lemma_cell_fill_cascade(
    c: Block,
    row: Block,
    is_header: bool,
    stripe: bool,
    data_idx: nat,
    widths: Seq<u32>,
)
    ensures
        ({
            let env = row_env(row, is_header, stripe, data_idx, widths);
            &&& prop_hex(c, "bg"@) is Some ==> cell_bg(c, env) == prop_hex(c, "bg"@)
            &&& (prop_hex(c, "bg"@) is None && prop_hex(row, "bg"@) is Some) ==> cell_bg(c, env)
                == prop_hex(row, "bg"@)
            &&& (prop_hex(c, "bg"@) is None && prop_hex(row, "bg"@) is None) ==> cell_bg(c, env) == (
            if !is_header && stripe && data_idx % 2 == 1 {
                Some("F2F2F2"@)
            } else {
                None
            })
            &&& prop_hex(c, "color"@) is Some ==> cell_color(c, env) == prop_hex(c, "color"@)
            &&& prop_hex(c, "color"@) is None ==> cell_color(c, env) == prop_hex(row, "color"@)
        }),
{
}

/// A cell that sets its own hex `bg` gets the same fill in any row, at any
/// place in the table.
pub proof fn lemma_own_fill_ignores_row(c: Block, e1: RowEnv, e2: RowEnv)
    requires
        prop_hex(c, "bg"@) is Some,
    ensures
        cell_bg(c, e1) == cell_bg(c, e2),
        cell_bg(c, e1) == prop_hex(c, "bg"@),
{
}

/// One `row`: its properties (height cascading from the table's), then
/// its cells; the carries come back trimmed.
pub open spec fn row_out(
    row: Block,
    is_header: bool,
    stripe: bool,
    data_idx: nat,
    widths: Seq<u32>,
    th: Option<u32>,
    trule: Option<Seq<char>>,
    p: Seq<RowspanCarry>,
    s: RunState,
) -> (Seq<char>, Seq<RowspanCarry>, RunState) {
    let env = row_env(row, is_header, stripe, data_idx, widths);
    let h = or_else(prop_dxa(row, "height"@), th);
    let rule = or_else(prop_rule(row, "height-rule"@), trule);
    let (o, p2, s2) = row_cells_from(cells_of(row), 0, 0, p, env, s);
    (element("w:tr"@, no_attrs(), tr_pr_xml(h, rule, is_header) + o), trim_tail(p2), s2)
}

fn render_tr_pr(x: &mut XmlBuf, h: Option<u32>, rule: Option<&'static str>, is_header: bool)
    ensures
        final(x)@ == old(x)@ + tr_pr_xml(
            h,
            match rule {
                Some(r) => Some(r@),
                None => None,
            },
            is_header,
        ),
{
    if is_header || h.is_some() {
        x.open0("w:trPr");
        if let Some(hv) = h {
            let h_s = u64_to_string(hv as u64);
            let mut attrs: Vec<(&str, &str)> = Vec::new();
            attrs.push(("w:val", h_s.as_str()));
            if let Some(r) = rule {
                attrs.push(("w:hRule", r));
            }
            proof {
                assert(attr_views(attrs@) =~= seq![("w:val"@, dec(hv as nat))] + match rule {
                    Some(r) => seq![("w:hRule"@, r@)],
                    None => Seq::empty(),
                });
            }
            x.empty("w:trHeight", attrs.as_slice());
        }
        if is_header {
            // Repeat header row when a table spans page breaks.
            x.empty0("w:tblHeader");
        }
        x.close("w:trPr");
    }
}

/// A span sum grows by one cell's colspan.
pub(crate) proof fn lemma_span_take(cs: Seq<Block>, k: int)
    requires
        0 <= k < cs.len(),
    ensures
        span_sum(cs.take(k + 1)) == span_sum(cs.take(k)) + colspan_of(cs[k]),
        span_sum(cs.take(k + 1)) <= span_sum(cs),
{
    assert(cs.take(k + 1).drop_last() =~= cs.take(k));
    lemma_span_take_le(cs, k + 1);
}

pub(crate) proof fn lemma_span_take_le(cs: Seq<Block>, k: int)
    requires
        0 <= k <= cs.len(),
    ensures
        span_sum(cs.take(k)) <= span_sum(cs),
    decreases cs.len() - k,
{
    if k < cs.len() {
        lemma_span_take_le(cs, k + 1);
        assert(cs.take(k + 1).drop_last() =~= cs.take(k));
    } else {
        assert(cs.take(k) =~= cs);
    }
}

fn prop_hex_or(b: &Block, key: &str, d: &Option<String>) -> (r: Option<String>)
    ensures
        crate::text::ov(r) == or_else(prop_hex(*b, key@), crate::text::ov(*d)),
{
    match prop_hex_exec(b, key) {
        Some(v) => Some(v),
        None => match d {
            Some(v) => Some(to_owned_string(v.as_str())),
            None => None,
        },
    }
}

/// One covered slot of a row: a continuation cell, the carries there
/// consumed for this row.
fn row_cont_step(
    col_widths: &Vec<u32>,
    pending: &mut Vec<RowspanCarry>,
    grid_col: usize,
    x: &mut XmlBuf,
    Ghost(cv): Ghost<Seq<Block>>,
    Ghost(k): Ghost<nat>,
    Ghost(env): Ghost<RowEnv>,
    Ghost(s): Ghost<RunState>,
    Ghost(t): Ghost<nat>,
) -> (next: usize)
    requires
        grid_col < old(pending)@.len(),
        old(pending)@[grid_col as int].remaining > 0,
        carries_ok(old(pending)@, t),
        t < 0x8000_0000,
        env.widths == col_widths@,
    ensures
        ({
            let rest = row_cells_from(cv, k, grid_col as nat, old(pending)@, env, s);
            let rest2 = row_cells_from(cv, k, next as nat, final(pending)@, env, s);
            &&& old(x)@ + rest.0 == final(x)@ + rest2.0
            &&& rest.1 == rest2.1
            &&& rest.2 == rest2.2
        }),
        carries_ok(final(pending)@, t),
        final(pending)@.len() == old(pending)@.len(),
        grid_col < next <= t,
{
    let carry = pending[grid_col];
    proof {
        assert(pending@[grid_col as int] == carry);
        lemma_row_cont(cv, k, grid_col as nat, pending@, env, s);
        lemma_dec_ok(pending@, t, grid_col as int, carry.grid_span as int);
    }
    let w = sum_widths(col_widths, grid_col, carry.grid_span);
    render_continuation_tc(carry.grid_span, w, x);
    dec_carries(pending, grid_col, carry.grid_span);
    grid_col + carry.grid_span
}

/// One source cell of a row, placed at a free slot; returns the slot
/// after its columns.
fn row_cell_step(
    cell: &Block,
    is_header: bool,
    stripe: bool,
    data_row_idx: usize,
    row_bg: &Option<String>,
    row_color: &Option<String>,
    col_widths: &Vec<u32>,
    pending: &mut Vec<RowspanCarry>,
    grid_col: usize,
    ctx: &mut EmitCtx,
    x: &mut XmlBuf,
    Ghost(cv): Ghost<Seq<Block>>,
    Ghost(k): Ghost<nat>,
    Ghost(env): Ghost<RowEnv>,
    Ghost(t): Ghost<nat>,
) -> (next: usize)
    requires
        k < cv.len(),
        cv[k as int] == *cell,
        !(grid_col < old(pending)@.len() && old(pending)@[grid_col as int].remaining > 0),
        carries_ok(old(pending)@, t),
        grid_col <= t,
        t + colspan_of(*cell) < 0x8000_0000,
        env.is_header == is_header,
        env.stripe == stripe,
        env.data_idx == data_row_idx as nat,
        env.widths == col_widths@,
        env.row_bg == crate::text::ov(*row_bg),
        env.row_color == crate::text::ov(*row_color),
    ensures
        ({
            let rest = row_cells_from(cv, k, grid_col as nat, old(pending)@, env, run_state(*old(ctx)));
            let rest2 = row_cells_from(cv, k + 1, next as nat, final(pending)@, env, run_state(*final(ctx)));
            &&& old(x)@ + rest.0 == final(x)@ + rest2.0
            &&& rest.1 == rest2.1
            &&& rest.2 == rest2.2
        }),
        carries_ok(final(pending)@, t + colspan_of(*cell)),
        next == grid_col + colspan_of(*cell),
        run_frame(*old(ctx), *final(ctx)),
{
    proof {
        lemma_row_cell(cv, k, grid_col as nat, pending@, env, run_state(*ctx));
    }
    let colspan = colspan_exec(cell);
    let rowspan = rowspan_exec(cell);
    // Cell bg cascade: explicit cell bg > row bg > stripe.
    let stripe_bg: Option<String> = if !is_header && stripe && data_row_idx % 2 == 1 {
        Some(to_owned_string("F2F2F2"))
    } else {
        None
    };
    let fallback_bg = match row_bg {
        Some(v) => Some(to_owned_string(v.as_str())),
        None => stripe_bg,
    };
    let force_bg = prop_hex_or(cell, "bg", &fallback_bg);
    // Cell color cascade: explicit cell color > row color.
    let cell_color = prop_hex_or(cell, "color", row_color);
    let w = sum_widths(col_widths, grid_col, colspan);
    proof {
        lemma_place_ok(pending@, t, grid_col as nat, colspan as nat, rowspan as nat);
    }
    render_tc(cell, is_header, colspan, rowspan, w, force_bg, cell_color, ctx, x);
    // Track the vMerge state for continuation rows.
    place_cell(pending, grid_col, colspan, rowspan);
    grid_col + colspan
}

#[verifier::rlimit(40)]
#[verifier::spinoff_prover]
fn render_tr(
    row: &Block,
    is_header: bool,
    stripe: bool,
    data_row_idx: usize,
    col_widths: &Vec<u32>,
    table_row_height: Option<u32>,
    table_row_height_rule: Option<&'static str>,
    pending: &mut Vec<RowspanCarry>,
    ctx: &mut EmitCtx,
    x: &mut XmlBuf,
    Ghost(t): Ghost<nat>,
)
    requires
        carries_ok(old(pending)@, t),
        t + row_width(*row) < 0x8000_0000,
    ensures
        ({
            let (o, p2, s2) = row_out(
                *row,
                is_header,
                stripe,
                data_row_idx as nat,
                col_widths@,
                table_row_height,
                match table_row_height_rule {
                    Some(r) => Some(r@),
                    None => None,
                },
                old(pending)@,
                run_state(*old(ctx)),
            );
            &&& final(x)@ == old(x)@ + o
            &&& final(pending)@ == p2
            &&& run_state(*final(ctx)) == s2
        }),
        carries_ok(final(pending)@, t + row_width(*row)),
        run_frame(*old(ctx), *final(ctx)),
{
    let row_bg = prop_hex_exec(row, "bg");
    let row_color = prop_hex_exec(row, "color");
    let ghost env = row_env(*row, is_header, stripe, data_row_idx as nat, col_widths@);
    // Row height cascade: explicit `row[height:..]` > table-level
    // `table[row-height:..]` default. Same for the rule.
    let row_height = match prop_dxa_exec(row, "height") {
        Some(h) => Some(h),
        None => table_row_height,
    };
    let row_height_rule = match prop_rule_exec(row, "height-rule") {
        Some(r) => Some(r),
        None => table_row_height_rule,
    };
    x.open0("w:tr");
    let ghost x1 = x@;
    render_tr_pr(x, row_height, row_height_rule, is_header);
    let ghost x2 = x@;
    let (cells, width) = cells_and_width(row, 0x8000_0000);
    let ghost cv = cells@.map_values(|c: &Block| *c);
    let ghost p0 = pending@;
    let ghost s0 = run_state(*ctx);
    let ghost c0 = *ctx;
    let ghost total = row_cells_from(cv, 0, 0, p0, env, s0);
    let n = cells.len();
    let mut k: usize = 0;
    let mut grid_col: usize = 0;
    proof {
        assert(cv.take(0) =~= Seq::<Block>::empty());
        assert(carries_ok(pending@, t + span_sum(cv.take(0))));
    }
    while (grid_col < pending.len() && pending[grid_col].remaining > 0) || k < n
        invariant
            n == cells@.len(),
            cv == cells@.map_values(|c: &Block| *c),
            cv == cells_of(*row),
            width == row_width(*row),
            t + width < 0x8000_0000,
            k <= n,
            grid_col <= t + span_sum(cv.take(k as int)),
            carries_ok(pending@, t + span_sum(cv.take(k as int))),
            env == row_env(*row, is_header, stripe, data_row_idx as nat, col_widths@),
            env.row_bg == crate::text::ov(row_bg),
            env.row_color == crate::text::ov(row_color),
            ({
                let rest = row_cells_from(cv, k as nat, grid_col as nat, pending@, env, run_state(*ctx));
                &&& x2 + total.0 == x@ + rest.0
                &&& total.1 == rest.1
                &&& total.2 == rest.2
            }),
            run_frame(c0, *ctx),
        decreases left(n as nat, k as nat), gap(pending@.len(), grid_col as nat),
    {
        proof {
            lemma_span_take_le(cv, k as int);
        }
        // Continuation slot from a prior row's vMerge.
        if grid_col < pending.len() && pending[grid_col].remaining > 0 {
            grid_col = row_cont_step(
                col_widths,
                pending,
                grid_col,
                x,
                Ghost(cv),
                Ghost(k as nat),
                Ghost(env),
                Ghost(run_state(*ctx)),
                Ghost(t + span_sum(cv.take(k as int))),
            );
        } else {
            let cell = cells[k];
            proof {
                assert(cv[k as int] == *cell);
                lemma_span_take(cv, k as int);
            }
            grid_col = row_cell_step(
                cell,
                is_header,
                stripe,
                data_row_idx,
                &row_bg,
                &row_color,
                col_widths,
                pending,
                grid_col,
                ctx,
                x,
                Ghost(cv),
                Ghost(k as nat),
                Ghost(env),
                Ghost(t + span_sum(cv.take(k as int))),
            );
            k = k + 1;
        }
    }
    proof {
        lemma_row_done(cv, k as nat, grid_col as nat, pending@, env, run_state(*ctx));
        lemma_span_take_le(cv, k as int);
        lemma_trim_ok(pending@, t + span_sum(cv.take(k as int)));
        assert(cv.take(n as int) =~= cv);
    }
    // Trim trailing exhausted entries.
    trim_carries(pending);
    proof {
        assert(x@ =~= x1 + (tr_pr_xml(
            row_height,
            match row_height_rule {
                Some(r) => Some(r@),
                None => None,
            },
            is_header,
        ) + total.0));
    }
    x.close("w:tr");
}


// ------------------------------------------------------------------
// Rows, caption, table
// ------------------------------------------------------------------

/// A row marked `kind:header`.
pub open spec fn is_header_row(r: Block) -> bool {
    lookup_str(r.properties@, "kind"@) == Some("header"@)
}

/// `stripe:true` on the table.
pub open spec fn stripe_of(b: Block) -> bool {
    lookup_str(b.properties@, "stripe"@) == Some("true"@)
}

/// The `row` children of a table from index `i` on, other children
/// skipped; `data_idx` counts the non-header rows before `i`. Returns the
/// markup, the carries afterwards and the run state.
#[verifier::opaque]
pub open spec fn rows_from(
    rows: Seq<Block>,
    i: nat,
    stripe: bool,
    data_idx: nat,
    widths: Seq<u32>,
    th: Option<u32>,
    trule: Option<Seq<char>>,
    p: Seq<RowspanCarry>,
    s: RunState,
) -> (Seq<char>, Seq<RowspanCarry>, RunState)
    decreases rows.len() - i,
{
    if i >= rows.len() {
        (Seq::empty(), p, s)
    } else if rows[i as int].name@ != "row"@ {
        rows_from(rows, i + 1, stripe, data_idx, widths, th, trule, p, s)
    } else {
        let r = rows[i as int];
        let h = is_header_row(r);
        let (o1, p1, s1) = row_out(r, h, stripe, data_idx, widths, th, trule, p, s);
        let (o, p2, s2) = rows_from(
            rows,
            i + 1,
            stripe,
            if h {
                data_idx
            } else {
                data_idx + 1
            },
            widths,
            th,
            trule,
            p1,
            s1,
        );
        (o1 + o, p2, s2)
    }
}

proof fn lemma_rows_done(
    rows: Seq<Block>,
    i: nat,
    stripe: bool,
    data_idx: nat,
    widths: Seq<u32>,
    th: Option<u32>,
    trule: Option<Seq<char>>,
    p: Seq<RowspanCarry>,
    s: RunState,
)
    requires
        i >= rows.len(),
    ensures
        rows_from(rows, i, stripe, data_idx, widths, th, trule, p, s) == (Seq::<char>::empty(), p, s),
{
    reveal(rows_from);
}

proof fn lemma_rows_skip(
    rows: Seq<Block>,
    i: nat,
    stripe: bool,
    data_idx: nat,
    widths: Seq<u32>,
    th: Option<u32>,
    trule: Option<Seq<char>>,
    p: Seq<RowspanCarry>,
    s: RunState,
)
    requires
        i < rows.len(),
        rows[i as int].name@ != "row"@,
    ensures
        rows_from(rows, i, stripe, data_idx, widths, th, trule, p, s) == rows_from(
            rows,
            i + 1,
            stripe,
            data_idx,
            widths,
            th,
            trule,
            p,
            s,
        ),
{
    reveal(rows_from);
}

proof fn lemma_rows_row(
    rows: Seq<Block>,
    i: nat,
    stripe: bool,
    data_idx: nat,
    widths: Seq<u32>,
    th: Option<u32>,
    trule: Option<Seq<char>>,
    p: Seq<RowspanCarry>,
    s: RunState,
)
    requires
        i < rows.len(),
        rows[i as int].name@ == "row"@,
    ensures
        ({
            let r = rows[i as int];
            let h = is_header_row(r);
            let (o1, p1, s1) = row_out(r, h, stripe, data_idx, widths, th, trule, p, s);
            let (o, p2, s2) = rows_from(
                rows,
                i + 1,
                stripe,
                if h {
                    data_idx
                } else {
                    data_idx + 1
                },
                widths,
                th,
                trule,
                p1,
                s1,
            );
            rows_from(rows, i, stripe, data_idx, widths, th, trule, p, s) == (o1 + o, p2, s2)
        }),
{
    reveal(rows_from);
}

/// The caption paragraph below a table with a `caption`: numbered by the
/// next table number, bookmarked `_Toc_table_N` for the list of tables.
pub open spec fn table_caption_out(b: Block, s: DocState) -> (Seq<char>, DocState) {
    match lookup_str(b.properties@, "caption"@) {
        None => (Seq::empty(), s),
        Some(text) => {
            let n = succ(s.table_seq);
            (
                caption_para("Table"@, n, s.next_bookmark, "_Toc_table_"@ + dec(n as nat), text),
                DocState { table_seq: n, next_bookmark: succ(s.next_bookmark), ..s },
            )
        },
    }
}

/// Everything a `table` block emits, and the state afterwards: with no
/// grid column, only the caption; otherwise the `w:tbl` (properties,
/// grid, rows) and then the caption.
pub open spec fn table_out(b: Block, s: DocState) -> (Seq<char>, DocState) {
    let rows = kids(b);
    let g = grid_width(rows);
    if g == 0 {
        table_caption_out(b, s)
    } else {
        let widths = col_widths(lookup_str(b.properties@, "widths"@), g);
        let (o, p, rs) = rows_from(
            rows,
            0,
            stripe_of(b),
            0,
            widths,
            prop_dxa(b, "row-height"@),
            prop_rule(b, "row-height-rule"@),
            Seq::empty(),
            s.run,
        );
        let tbl = element(
            "w:tbl"@,
            no_attrs(),
            tbl_pr_xml(border_of(b), prop_dxa(b, "indent"@)) + element(
                "w:tblGrid"@,
                no_attrs(),
                grid_cols_xml(widths),
            ) + o,
        );
        let (cap, s2) = table_caption_out(b, DocState { run: rs, ..s });
        (tbl + cap, s2)
    }
}

fn emit_rows(
    rows: &[Block],
    stripe: bool,
    col_widths: &Vec<u32>,
    table_row_height: Option<u32>,
    table_row_height_rule: Option<&'static str>,
    ctx: &mut EmitCtx,
    x: &mut XmlBuf,
)
    requires
        total_width(rows@) < 0x8000_0000,
    ensures
        ({
            let (o, p, s2) = rows_from(
                rows@,
                0,
                stripe,
                0,
                col_widths@,
                table_row_height,
                match table_row_height_rule {
                    Some(r) => Some(r@),
                    None => None,
                },
                Seq::empty(),
                run_state(*old(ctx)),
            );
            &&& final(x)@ == old(x)@ + o
            &&& run_state(*final(ctx)) == s2
        }),
        run_frame(*old(ctx), *final(ctx)),
{
    let ghost trule = match table_row_height_rule {
        Some(r) => Some(r@),
        None => None,
    };
    let ghost total = rows_from(
        rows@,
        0,
        stripe,
        0,
        col_widths@,
        table_row_height,
        trule,
        Seq::empty(),
        run_state(*ctx),
    );
    let ghost x0 = x@;
    let ghost c0 = *ctx;
    let mut pending: Vec<RowspanCarry> = Vec::new();
    let mut data_row_idx: usize = 0;
    let mut i: usize = 0;
    proof {
        assert(rows@.take(0) =~= Seq::<Block>::empty());
    }
    while i < rows.len()
        invariant
            i <= rows@.len(),
            data_row_idx <= i,
            total_width(rows@) < 0x8000_0000,
            carries_ok(pending@, total_width(rows@.take(i as int))),
            trule == match table_row_height_rule {
                Some(r) => Some(r@),
                None => None::<Seq<char>>,
            },
            ({
                let rest = rows_from(
                    rows@,
                    i as nat,
                    stripe,
                    data_row_idx as nat,
                    col_widths@,
                    table_row_height,
                    trule,
                    pending@,
                    run_state(*ctx),
                );
                &&& x0 + total.0 == x@ + rest.0
                &&& total.2 == rest.2
            }),
            run_frame(c0, *ctx),
        decreases rows@.len() - i,
    {
        proof {
            assert(rows@.take(i + 1).drop_last() =~= rows@.take(i as int));
            lemma_total_prefix(rows@, i as int + 1);
        }
        let row = &rows[i];
        if str_eq(row.name.as_str(), "row") {
            proof {
                lemma_rows_row(
                    rows@,
                    i as nat,
                    stripe,
                    data_row_idx as nat,
                    col_widths@,
                    table_row_height,
                    trule,
                    pending@,
                    run_state(*ctx),
                );
                assert(rows@.take(i + 1).last() == *row);
            }
            let is_header = match row.prop_str("kind") {
                Some(k) => str_eq(k, "header"),
                None => false,
            };
            render_tr(
                row,
                is_header,
                stripe,
                data_row_idx,
                col_widths,
                table_row_height,
                table_row_height_rule,
                &mut pending,
                ctx,
                x,
                Ghost(total_width(rows@.take(i as int))),
            );
            if !is_header {
                data_row_idx = data_row_idx + 1;
            }
        } else {
            proof {
                lemma_rows_skip(
                    rows@,
                    i as nat,
                    stripe,
                    data_row_idx as nat,
                    col_widths@,
                    table_row_height,
                    trule,
                    pending@,
                    run_state(*ctx),
                );
            }
        }
        i = i + 1;
    }
    proof {
        lemma_rows_done(
            rows@,
            i as nat,
            stripe,
            data_row_idx as nat,
            col_widths@,
            table_row_height,
            trule,
            pending@,
            run_state(*ctx),
        );
    }
}

fn next_table_caption(ctx: &mut EmitCtx) -> (r: (u32, u32))
    ensures
        r.0 == succ(old(ctx).table_caption_seq),
        r.1 == old(ctx).next_bookmark_id,
        doc_state(*final(ctx)) == (DocState {
            table_seq: r.0,
            next_bookmark: succ(old(ctx).next_bookmark_id),
            ..doc_state(*old(ctx))
        }),
        doc_frame(*old(ctx), *final(ctx)),
{
    ctx.table_caption_seq = ctx.table_caption_seq.wrapping_add(1);
    let seq_n = ctx.table_caption_seq;
    let bm_id = ctx.alloc_bookmark_id();
    (seq_n, bm_id)
}

fn emit_caption(b: &Block, ctx: &mut EmitCtx, x: &mut XmlBuf)
    ensures
        final(x)@ == old(x)@ + table_caption_out(*b, doc_state(*old(ctx))).0,
        doc_state(*final(ctx)) == table_caption_out(*b, doc_state(*old(ctx))).1,
        doc_frame(*old(ctx), *final(ctx)),
{
    let text = match b.prop_str("caption") {
        Some(t) => t,
        None => return,
    };
    let (seq_n, bm_id) = next_table_caption(ctx);
    // Anchor so the list of tables' PAGEREF resolves.
    let bookmark = prefixed_number("_Toc_table_", seq_n as u64);
    caption_para_into("Table", seq_n, bm_id, bookmark.as_str(), text, x);
}

/// Emit a `<w:tbl>` from a `table` block plus a trailing caption
/// paragraph if `caption:` is set. `ctx` carries the table SEQ counter
/// so the cached field result on the caption matches document order.
///
/// Property-driven attributes:
/// - `border: all | outer | none` → `<w:tblBorders>`
/// - `stripe: true` → alternating data-row fill F2F2F2
/// - `indent: Npt | Nin | ...` → `<w:tblInd>` (table left indent)
/// - `widths: "a,b,c,d"` → per-column `<w:gridCol w:w>` values in dxa;
///   falls back to auto-distributed content width.
pub fn render_table(b: &Block, ctx: &mut EmitCtx, x: &mut XmlBuf)
    requires
        table_fits(*b),
    ensures
        final(x)@ == old(x)@ + table_out(*b, doc_state(*old(ctx))).0,
        doc_state(*final(ctx)) == table_out(*b, doc_state(*old(ctx))).1,
        doc_frame(*old(ctx), *final(ctx)),
{
    let border_mode = border_mode(b);
    let stripe = match b.prop_str("stripe") {
        Some(v) => str_eq(v, "true"),
        None => false,
    };
    let indent_dxa = prop_dxa_exec(b, "indent");
    // Table-level defaults that cascade into rows when the row doesn't
    // set its own value, so authors can set the property once at the
    // table rather than on every row.
    let table_row_height = prop_dxa_exec(b, "row-height");
    let table_row_height_rule = prop_rule_exec(b, "row-height-rule");
    let none: Vec<Block> = Vec::new();
    let rows: &[Block] = match &b.body {
        Body::Children(c) => c.as_slice(),
        _ => none.as_slice(),
    };
    proof {
        assert(rows@ == kids(*b));
        lemma_grid_le_total(rows@);
    }
    let grid_cols = compute_grid_cols(rows);
    if grid_cols == 0 {
        emit_caption(b, ctx, x);
        return;
    }
    // Per-column widths come from `[widths:"a,b,c,…"]` on the table;
    // missing entries auto-distribute the remaining content width.
    let col_widths = resolve_col_widths(b.prop_str("widths"), grid_cols);
    let ghost c0 = *ctx;
    let ghost x0 = x@;
    x.open0("w:tbl");
    let ghost x1 = x@;
    render_tbl_pr(x, border_mode, indent_dxa);
    render_tbl_grid(x, &col_widths);
    emit_rows(rows, stripe, &col_widths, table_row_height, table_row_height_rule, ctx, x);
    x.close("w:tbl");
    proof {
        lemma_run_step(c0, *ctx);
    }
    emit_caption(b, ctx, x);
}


/// The grid columns a row spans, when fewer than `bound`; `None` when
/// at least `bound`.
fn row_width_below(row: &Block, bound: usize) -> (r: Option<usize>)
    ensures
        match r {
            Some(w) => w == row_width(*row) && w < bound,
            None => row_width(*row) >= bound,
        },
{
    if bound == 0 {
        return None;
    }
    let mut sum: usize = 0;
    if let Body::Children(children) = &row.body {
        let mut i: usize = 0;
        while i < children.len()
            invariant
                i <= children@.len(),
                row.body == Body::Children(*children),
                sum == span_sum(named(children@.take(i as int), "cell"@)),
                sum < bound,
            decreases children@.len() - i,
        {
            proof {
                assert(children@.take(i + 1).drop_last() =~= children@.take(i as int));
                lemma_span_step(children@, i as int);
                lemma_span_prefix(children@, i as int + 1);
                assert(named(children@, "cell"@) == cells_of(*row));
            }
            let c = &children[i];
            if str_eq(c.name.as_str(), "cell") {
                let cs = colspan_exec(c);
                if cs >= bound - sum {
                    return None;
                }
                sum = sum + cs;
            }
            i = i + 1;
        }
        proof {
            assert(children@.take(i as int) =~= children@);
        }
    }
    if sum < bound {
        Some(sum)
    } else {
        None
    }
}

/// Whether a table spans fewer than 2^31 grid columns in all: the
/// condition under which [`render_table`] can run.
pub fn table_fits_exec(b: &Block) -> (r: bool)
    ensures
        r == table_fits(*b),
{
    let none: Vec<Block> = Vec::new();
    let rows: &[Block] = match &b.body {
        Body::Children(c) => c.as_slice(),
        _ => none.as_slice(),
    };
    proof {
        assert(rows@ == kids(*b));
    }
    let mut total: usize = 0;
    let mut i: usize = 0;
    while i < rows.len()
        invariant
            i <= rows@.len(),
            rows@ == kids(*b),
            total == total_width(rows@.take(i as int)),
            total < 0x8000_0000,
        decreases rows@.len() - i,
    {
        proof {
            assert(rows@.take(i + 1).drop_last() =~= rows@.take(i as int));
            assert(rows@.take(i + 1).last() == rows@[i as int]);
            lemma_total_prefix(rows@, i as int + 1);
        }
        let r = &rows[i];
        if str_eq(r.name.as_str(), "row") {
            match row_width_below(r, 0x8000_0000 - total) {
                Some(w) => {
                    total = total + w;
                },
                None => {
                    return false;
                },
            }
        }
        i = i + 1;
    }
    proof {
        assert(rows@.take(i as int) =~= rows@);
    }
    true
}
} // verus!
