//! Block-level paragraph emission.
//!
//! Title, h1..h6, p, blockquote and pagebreak get their own paragraph
//! shapes; tables and images go to their emitters; sections descend
//! into their child blocks; any other block falls back to a plain
//! paragraph carrying its text.

use vstd::prelude::*;

use crate::ast_v2::{lookup_str, Block, Body};
use crate::docx::emit::table::{render_table, table_fits, table_out};
use crate::docx::xml::{attr1, attr2, attr3, element, empty_tag, group_concat, no_attrs, XmlBuf};
use crate::docx2::parts::numbering::NUM_ID_HEADING;
use crate::text::{
    chars_of, dec, prefixed_number, str_eq, string_of_range, to_owned_string, trim, trim_spec,
    u64_to_string,
};

use super::ctx::{next_index, succ, CaptionAnchor, EmitCtx, HeadingAnchor, ImageEnv, ImageSource};
use super::drawing::{emu_per_unit, first_letter, image_out, is_letter, lemma_unit_names_distinct, render_image};
use super::hyperlink::flatten_link_text;
use super::length::{length, length_of};
use super::prepass::{heading_level, heading_views, kids_of};
use super::run::{body_out, flat_text, page_break_xml, plain_rpr, render_body, render_page_break, run_state, RunState};
use super::state::{doc_frame, doc_state, lemma_run_step, DocState};
use super::toc::{toc_section_xml, try_render_toc_section};

verus! {

/// Twentieths of a point per unit, as `(p, q)` for `p / q`: points
/// (also a bare number) 20, inches 1440, centimetres 1440 / 2.54,
/// millimetres 144 / 2.54, pixels (96 per inch) 15.
pub open spec fn dxa_per_unit(u: Seq<char>) -> Option<(nat, nat)> {
    if u == ""@ || u == "pt"@ {
        Some((20, 1))
    } else if u == "in"@ {
        Some((1440, 1))
    } else if u == "cm"@ {
        Some((72000, 127))
    } else if u == "mm"@ {
        Some((7200, 127))
    } else if u == "px"@ {
        Some((15, 1))
    } else {
        None
    }
}

/// The dxa units agree with the EMU units of drawings (635 EMU to the
/// dxa) for every named unit, and an inch is 1440 dxa; a bare number is
/// a point here.
pub proof fn lemma_dxa_units_agree()
    ensures
        dxa_per_unit("in"@) == Some((1440nat, 1nat)),
        dxa_per_unit(""@) == dxa_per_unit("pt"@),
        emu_per_unit("pt"@).unwrap() * dxa_per_unit("pt"@).unwrap().1 == 635 * dxa_per_unit(
            "pt"@,
        ).unwrap().0,
        emu_per_unit("in"@).unwrap() * dxa_per_unit("in"@).unwrap().1 == 635 * dxa_per_unit(
            "in"@,
        ).unwrap().0,
        emu_per_unit("cm"@).unwrap() * dxa_per_unit("cm"@).unwrap().1 == 635 * dxa_per_unit(
            "cm"@,
        ).unwrap().0,
        emu_per_unit("mm"@).unwrap() * dxa_per_unit("mm"@).unwrap().1 == 635 * dxa_per_unit(
            "mm"@,
        ).unwrap().0,
        emu_per_unit("px"@).unwrap() * dxa_per_unit("px"@).unwrap().1 == 635 * dxa_per_unit(
            "px"@,
        ).unwrap().0,
        dxa_per_unit("%"@) is None,
{
    lemma_unit_names_distinct();
}

/// A length text in dxa (twentieths of a point): a decimal number and a
/// unit (`pt`, `in`, `cm`, `mm`, `px`; a bare number is points), rounded
/// to the nearest dxa; `None` for anything else, a negative length, or
/// one past `u32::MAX`.
pub open spec fn dxa_of(s: Seq<char>) -> Option<u32> {
    let t = trim_spec(s);
    let i = first_letter(t);
    let num = t.take(i as int);
    let unit = t.skip(i as int);
    if num.len() == 0 {
        None
    } else {
        match dxa_per_unit(unit) {
            Some((p, q)) => length_of(num, p, q),
            None => None,
        }
    }
}

/// Parse a length property (`"24pt"`, `"1in"`, `"2.5cm"`, `"12"`) to dxa.
pub fn parse_dxa(s: &str) -> (r: Option<u32>)
    ensures
        r == dxa_of(s@),
{
    let t = trim(s);
    let cs = chars_of(t.as_str());
    let n = cs.len();
    let i = super::drawing::first_letter_at(&cs);
    let num = string_of_range(&cs, 0, i);
    let unit = string_of_range(&cs, i, n);
    proof {
        assert(num@ =~= t@.take(i as int));
        assert(unit@ =~= t@.skip(i as int));
        reveal_strlit("");
        reveal_strlit("px");
        reveal_strlit("pt");
        reveal_strlit("in");
        reveal_strlit("cm");
        reveal_strlit("mm");
    }
    if i == 0 {
        return None;
    }
    let u = unit.as_str();
    let (p, q): (u64, u64) = if str_eq(u, "") || str_eq(u, "pt") {
        (20, 1)
    } else if str_eq(u, "in") {
        (1440, 1)
    } else if str_eq(u, "cm") {
        (72000, 127)
    } else if str_eq(u, "mm") {
        (7200, 127)
    } else if str_eq(u, "px") {
        (15, 1)
    } else {
        return None;
    };
    length(num.as_str(), p, q)
}


// ------------------------------------------------------------------
// Block emission
// ------------------------------------------------------------------

/// Stem's alignment vocabulary → Word's `<w:jc w:val>`; anything else
/// centres.
pub open spec fn jc_or_center(s: Seq<char>) -> Seq<char> {
    if s == "left"@ {
        "left"@
    } else if s == "right"@ {
        "right"@
    } else if s == "center"@ || s == "centre"@ {
        "center"@
    } else if s == "justify"@ || s == "both"@ {
        "both"@
    } else {
        "center"@
    }
}

/// A title's paragraph properties: the Title style, tighter spacing
/// (6pt after, single line) and the alignment.
pub open spec fn title_ppr(align: Seq<char>) -> Seq<char> {
    element(
        "w:pPr"@,
        no_attrs(),
        empty_tag("w:pStyle"@, attr1("w:val"@, "Title"@)) + empty_tag(
            "w:spacing"@,
            attr3("w:after"@, "120"@, "w:line"@, "240"@, "w:lineRule"@, "auto"@),
        ) + empty_tag("w:jc"@, attr1("w:val"@, jc_or_center(align))),
    )
}

/// A heading's paragraph properties: its `HeadingN` style and, when
/// numbered, the heading numbering at level `N - 1`.
pub open spec fn heading_ppr(level: u32, numbered: bool) -> Seq<char> {
    element(
        "w:pPr"@,
        no_attrs(),
        empty_tag("w:pStyle"@, attr1("w:val"@, "Heading"@ + dec(level as nat))) + if numbered {
            element(
                "w:numPr"@,
                no_attrs(),
                empty_tag("w:ilvl"@, attr1("w:val"@, dec((level - 1) as nat))) + empty_tag(
                    "w:numId"@,
                    attr1("w:val"@, dec(NUM_ID_HEADING as nat)),
                ),
            )
        } else {
            Seq::empty()
        },
    )
}

/// A paragraph of the block's runs after the given properties.
pub open spec fn para_out(ppr: Seq<char>, b: Block, s: DocState) -> (Seq<char>, DocState) {
    let (o, r) = body_out(b, plain_rpr(), s.run);
    (element("w:p"@, no_attrs(), ppr + o), DocState { run: r, ..s })
}

/// A heading at `level`: registered as the next heading anchor
/// `_Toc{n}` with its flattened text, bookmarked with the next bookmark
/// id around its runs.
pub open spec fn heading_out(b: Block, level: u32, s: DocState) -> (Seq<char>, DocState) {
    let bookmark = "_Toc"@ + dec(next_index(s.headings.len()));
    let bm = dec(s.next_bookmark as nat);
    let numbered = lookup_str(b.properties@, "numbered"@) == Some("true"@);
    let (o, r) = body_out(b, plain_rpr(), s.run);
    (
        element(
            "w:p"@,
            no_attrs(),
            heading_ppr(level, numbered) + empty_tag(
                "w:bookmarkStart"@,
                attr2("w:id"@, bm, "w:name"@, bookmark),
            ) + o + empty_tag("w:bookmarkEnd"@, attr1("w:id"@, bm)),
        ),
        DocState {
            run: r,
            headings: s.headings.push((bookmark, level, flat_text(b))),
            next_bookmark: succ(s.next_bookmark),
            ..s
        },
    )
}

/// What one block emits into the body, and the state afterwards, given
/// the loaded image sources and the registered captions.
pub open spec fn block_out(b: Block, srcs: ImageEnv, caps: Seq<CaptionAnchor>, s: DocState) -> (
    Seq<char>,
    DocState,
)
    decreases b, 1nat, 0nat,
{
    let name = b.name@;
    if name == "title"@ {
        let align = match lookup_str(b.properties@, "align"@) {
            Some(a) => a,
            None => "center"@,
        };
        para_out(title_ppr(align), b, s)
    } else if heading_level(name) != 0 {
        heading_out(b, heading_level(name), s)
    } else if name == "blockquote"@ {
        para_out(element("w:pPr"@, no_attrs(), empty_tag("w:ind"@, attr1("w:left"@, "720"@))), b, s)
    } else if name == "pagebreak"@ {
        (element("w:p"@, no_attrs(), page_break_xml()), s)
    } else if name == "table"@ {
        table_out(b, s)
    } else if name == "image"@ {
        image_out(b, srcs, s)
    } else if name == "section"@ {
        match toc_section_xml(b, s.headings, caps) {
            Some(o) => (o, s),
            None => kids_out(b, kids_of(b).len(), srcs, caps, s),
        }
    } else if name == "header"@ || name == "footer"@ {
        (Seq::empty(), s)
    } else {
        // `p`, and any block without a shape of its own.
        para_out(Seq::empty(), b, s)
    }
}

/// The first `k` children of `b`, one after another.
pub open spec fn kids_out(b: Block, k: nat, srcs: ImageEnv, caps: Seq<CaptionAnchor>, s: DocState) -> (
    Seq<char>,
    DocState,
)
    decreases b, 0nat, k,
{
    match b.body {
        Body::Children(kids) => {
            if k == 0 || k > kids@.len() {
                (Seq::empty(), s)
            } else {
                proof {
                    assert(decreases_to!(b => b.body));
                    assert(decreases_to!(b.body => kids));
                    assert(decreases_to!(kids => kids@));
                    assert(decreases_to!(kids@ => kids@[k - 1]));
                }
                let (o1, s1) = kids_out(b, (k - 1) as nat, srcs, caps, s);
                let (o2, s2) = block_out(kids@[k - 1], srcs, caps, s1);
                (o1 + o2, s2)
            }
        },
        _ => (Seq::empty(), s),
    }
}

/// Every table that emission reaches spans fewer than 2^31 grid columns
/// in all.
pub open spec fn block_fits(b: Block) -> bool
    decreases b, 1nat, 0nat,
{
    if b.name@ == "table"@ {
        table_fits(b)
    } else if b.name@ == "section"@ {
        kids_fit(b, kids_of(b).len())
    } else {
        true
    }
}

/// The first `k` children of `b` fit.
pub open spec fn kids_fit(b: Block, k: nat) -> bool
    decreases b, 0nat, k,
{
    match b.body {
        Body::Children(kids) => {
            if k == 0 || k > kids@.len() {
                true
            } else {
                proof {
                    assert(decreases_to!(b => b.body));
                    assert(decreases_to!(b.body => kids));
                    assert(decreases_to!(kids => kids@));
                    assert(decreases_to!(kids@ => kids@[k - 1]));
                }
                kids_fit(b, (k - 1) as nat) && block_fits(kids@[k - 1])
            }
        },
        _ => true,
    }
}

proof fn lemma_kids_fit(b: Block, n: nat, i: nat)
    requires
        kids_fit(b, n),
        i < n <= kids_of(b).len(),
    ensures
        block_fits(kids_of(b)[i as int]),
    decreases n,
{
    if i + 1 < n {
        lemma_kids_fit(b, (n - 1) as nat, i);
    }
}

fn normalize_jc(s: &str) -> (r: &'static str)
    ensures
        r@ == jc_or_center(s@),
{
    proof {
        reveal_strlit("left");
        reveal_strlit("right");
        reveal_strlit("center");
        reveal_strlit("centre");
        reveal_strlit("justify");
        reveal_strlit("both");
    }
    if str_eq(s, "left") {
        "left"
    } else if str_eq(s, "right") {
        "right"
    } else if str_eq(s, "center") || str_eq(s, "centre") {
        "center"
    } else if str_eq(s, "justify") || str_eq(s, "both") {
        "both"
    } else {
        "center"
    }
}

/// The runs of a paragraph's body; only the run state changes.
fn render_para_runs(b: &Block, ctx: &mut EmitCtx, x: &mut XmlBuf)
    ensures
        final(x)@ == old(x)@ + body_out(*b, plain_rpr(), run_state(*old(ctx))).0,
        doc_state(*final(ctx)) == (DocState {
            run: body_out(*b, plain_rpr(), run_state(*old(ctx))).1,
            ..doc_state(*old(ctx))
        }),
        doc_frame(*old(ctx), *final(ctx)),
{
    let ghost c0 = *ctx;
    render_body(b, ctx, x);
    proof {
        lemma_run_step(c0, *ctx);
    }
}

fn render_title(b: &Block, ctx: &mut EmitCtx, x: &mut XmlBuf)
    ensures
        ({
            let align = match lookup_str(b.properties@, "align"@) {
                Some(a) => a,
                None => "center"@,
            };
            let (o, s) = para_out(title_ppr(align), *b, doc_state(*old(ctx)));
            &&& final(x)@ == old(x)@ + o
            &&& doc_state(*final(ctx)) == s
        }),
        doc_frame(*old(ctx), *final(ctx)),
{
    let align = match b.prop_str("align") {
        Some(a) => a,
        None => "center",
    };
    proof {
        reveal_strlit("center");
    }
    x.open0("w:p");
    let ghost x1 = x@;
    x.open0("w:pPr");
    x.empty1("w:pStyle", "w:val", "Title");
    // Tighter title spacing than the body default — 6pt after,
    // single-line height.
    x.empty3("w:spacing", "w:after", "120", "w:line", "240", "w:lineRule", "auto");
    x.empty1("w:jc", "w:val", normalize_jc(align));
    x.close("w:pPr");
    render_para_runs(b, ctx, x);
    x.close("w:p");
}

/// Register the next heading anchor for `b` and take the next bookmark
/// id; returns the anchor's bookmark name and the id.
fn register_heading(b: &Block, level: u32, ctx: &mut EmitCtx) -> (r: (String, u32))
    ensures
        ({
            let s = doc_state(*old(ctx));
            &&& r.0@ == "_Toc"@ + dec(next_index(s.headings.len()))
            &&& r.1 == s.next_bookmark
            &&& doc_state(*final(ctx)) == (DocState {
                headings: s.headings.push((r.0@, level, flat_text(*b))),
                next_bookmark: succ(s.next_bookmark),
                ..s
            })
        }),
        doc_frame(*old(ctx), *final(ctx)),
{
    let anchor_idx = (ctx.heading_anchors.len() as u64).wrapping_add(1);
    let bookmark = prefixed_number("_Toc", anchor_idx);
    let visible = flatten_link_text(b);
    let ghost before = ctx.heading_anchors@;
    ctx.heading_anchors.push(HeadingAnchor { bookmark: to_owned_string(bookmark.as_str()), level, text: visible });
    proof {
        assert(heading_views(ctx.heading_anchors@) =~= heading_views(before).push(
            ("_Toc"@ + dec(next_index(before.len())), level, flat_text(*b)),
        ));
    }
    let bm_id = ctx.alloc_bookmark_id();
    (bookmark, bm_id)
}

fn heading_ppr_into(level: u32, numbered: bool, x: &mut XmlBuf)
    requires
        1 <= level,
    ensures
        final(x)@ == old(x)@ + heading_ppr(level, numbered),
{
    let style = prefixed_number("Heading", level as u64);
    x.open0("w:pPr");
    let ghost x1 = x@;
    x.empty1("w:pStyle", "w:val", style.as_str());
    if numbered {
        let ilvl = u64_to_string((level - 1) as u64);
        let num_id = u64_to_string(NUM_ID_HEADING as u64);
        x.open0("w:numPr");
        x.empty1("w:ilvl", "w:val", ilvl.as_str());
        x.empty1("w:numId", "w:val", num_id.as_str());
        x.close("w:numPr");
    }
    x.close("w:pPr");
}

fn render_heading(b: &Block, level: u32, ctx: &mut EmitCtx, x: &mut XmlBuf)
    requires
        1 <= level <= 6,
    ensures
        final(x)@ == old(x)@ + heading_out(*b, level, doc_state(*old(ctx))).0,
        doc_state(*final(ctx)) == heading_out(*b, level, doc_state(*old(ctx))).1,
        doc_frame(*old(ctx), *final(ctx)),
{
    let numbered = match b.prop_str("numbered") {
        Some(v) => str_eq(v, "true"),
        None => false,
    };
    proof {
        reveal_strlit("true");
    }
    // Register a heading anchor before emitting so the TOC can resolve
    // PAGEREF targets in document order; the flattened heading text is
    // the TOC's pre-populated label.
    let (bookmark, bm_id) = register_heading(b, level, ctx);
    let bm_id_s = u64_to_string(bm_id as u64);
    x.open0("w:p");
    let ghost x1 = x@;
    heading_ppr_into(level, numbered, x);
    x.empty2("w:bookmarkStart", "w:id", bm_id_s.as_str(), "w:name", bookmark.as_str());
    let ghost x2 = x@;
    render_para_runs(b, ctx, x);
    x.empty1("w:bookmarkEnd", "w:id", bm_id_s.as_str());
    x.close("w:p");
}

fn render_paragraph(b: &Block, ctx: &mut EmitCtx, x: &mut XmlBuf)
    ensures
        final(x)@ == old(x)@ + para_out(Seq::empty(), *b, doc_state(*old(ctx))).0,
        doc_state(*final(ctx)) == para_out(Seq::empty(), *b, doc_state(*old(ctx))).1,
        doc_frame(*old(ctx), *final(ctx)),
{
    x.open0("w:p");
    render_para_runs(b, ctx, x);
    x.close("w:p");
}

fn render_blockquote(b: &Block, ctx: &mut EmitCtx, x: &mut XmlBuf)
    ensures
        ({
            let ppr = element("w:pPr"@, no_attrs(), empty_tag("w:ind"@, attr1("w:left"@, "720"@)));
            &&& final(x)@ == old(x)@ + para_out(ppr, *b, doc_state(*old(ctx))).0
            &&& doc_state(*final(ctx)) == para_out(ppr, *b, doc_state(*old(ctx))).1
        }),
        doc_frame(*old(ctx), *final(ctx)),
{
    x.open0("w:p");
    x.open0("w:pPr");
    x.empty1("w:ind", "w:left", "720");
    x.close("w:pPr");
    render_para_runs(b, ctx, x);
    x.close("w:p");
}

fn render_pagebreak(x: &mut XmlBuf)
    ensures
        final(x)@ == old(x)@ + element("w:p"@, no_attrs(), page_break_xml()),
{
    x.open0("w:p");
    render_page_break(x);
    x.close("w:p");
}

/// Walk the children only — the body of a `section`.
fn render_children(b: &Block, ctx: &mut EmitCtx, x: &mut XmlBuf)
    requires
        kids_fit(*b, kids_of(*b).len()),
    ensures
        ({
            let (o, s) = kids_out(
                *b,
                kids_of(*b).len(),
                crate::docx2::emit::ctx::image_env(*old(ctx)),
                old(ctx).captions@,
                doc_state(*old(ctx)),
            );
            &&& final(x)@ == old(x)@ + o
            &&& doc_state(*final(ctx)) == s
        }),
        doc_frame(*old(ctx), *final(ctx)),
    decreases b, 0nat,
{
    if let Body::Children(children) = &b.body {
        let ghost x0 = x@;
        let ghost c0 = *ctx;
        let ghost srcs = crate::docx2::emit::ctx::image_env(*ctx);
        let ghost caps = ctx.captions@;
        let ghost s0 = doc_state(*ctx);
        let mut i: usize = 0;
        while i < children.len()
            invariant
                i <= children@.len(),
                b.body == Body::Children(*children),
                kids_fit(*b, children@.len()),
                srcs == crate::docx2::emit::ctx::image_env(c0),
                caps == c0.captions@,
                x@ == x0 + kids_out(*b, i as nat, srcs, caps, s0).0,
                doc_state(*ctx) == kids_out(*b, i as nat, srcs, caps, s0).1,
                doc_frame(c0, *ctx),
            decreases children@.len() - i,
        {
            proof {
                assert(decreases_to!(*b => b.body));
                assert(decreases_to!(b.body => *children));
                assert(decreases_to!(*children => children@));
                assert(decreases_to!(children@ => children@[i as int]));
                lemma_kids_fit(*b, children@.len(), i as nat);
            }
            render_block(&children[i], ctx, x);
            i = i + 1;
        }
    }
}

/// Emit OOXML for one block into `x`. Recurses into sections; the
/// reserved sections (`toc`, the lists of tables and figures) render
/// their indexes instead; headers and footers go to parts of their own.
pub fn render_block(b: &Block, ctx: &mut EmitCtx, x: &mut XmlBuf)
    requires
        block_fits(*b),
    ensures
        final(x)@ == old(x)@ + block_out(
            *b,
            crate::docx2::emit::ctx::image_env(*old(ctx)),
            old(ctx).captions@,
            doc_state(*old(ctx)),
        ).0,
        doc_state(*final(ctx)) == block_out(
            *b,
            crate::docx2::emit::ctx::image_env(*old(ctx)),
            old(ctx).captions@,
            doc_state(*old(ctx)),
        ).1,
        doc_frame(*old(ctx), *final(ctx)),
    decreases b, 1nat,
{
    proof {
        reveal_strlit("title");
        reveal_strlit("p");
        reveal_strlit("blockquote");
        reveal_strlit("pagebreak");
        reveal_strlit("table");
        reveal_strlit("image");
        reveal_strlit("section");
        reveal_strlit("header");
        reveal_strlit("footer");
    }
    let name = b.name.as_str();
    let level = super::prepass::heading_level_of(name);
    if str_eq(name, "title") {
        render_title(b, ctx, x);
    } else if level != 0 {
        render_heading(b, level, ctx, x);
    } else if str_eq(name, "blockquote") {
        render_blockquote(b, ctx, x);
    } else if str_eq(name, "pagebreak") {
        render_pagebreak(x);
    } else if str_eq(name, "table") {
        render_table(b, ctx, x);
    } else if str_eq(name, "image") {
        render_image(b, ctx, x);
    } else if str_eq(name, "section") {
        // Reserved sections render their index instead of recursing.
        if !try_render_toc_section(b, ctx, x) {
            render_children(b, ctx, x);
        }
    } else if str_eq(name, "header") || str_eq(name, "footer") {
        // Page chrome: emitted into its own part, not the body.
    } else {
        // `p`, and anything not specialized: a plain paragraph carrying
        // the block's runs, so the document keeps its reading flow.
        render_paragraph(b, ctx, x);
    }
}

/// The first `k` blocks of a list, one after another.
pub open spec fn blocks_out(bs: Seq<Block>, k: nat, srcs: ImageEnv, caps: Seq<CaptionAnchor>, s: DocState) -> (
    Seq<char>,
    DocState,
)
    decreases k,
{
    if k == 0 || k > bs.len() {
        (Seq::empty(), s)
    } else {
        let (o1, s1) = blocks_out(bs, (k - 1) as nat, srcs, caps, s);
        let (o2, s2) = block_out(bs[k - 1], srcs, caps, s1);
        (o1 + o2, s2)
    }
}

/// Every block of a list fits.
pub open spec fn blocks_fit(bs: Seq<Block>) -> bool {
    forall|i: int| 0 <= i < bs.len() ==> #[trigger] block_fits(bs[i])
}

/// Emit a list of blocks in order.
pub fn render_blocks(blocks: &[Block], ctx: &mut EmitCtx, x: &mut XmlBuf)
    requires
        blocks_fit(blocks@),
    ensures
        ({
            let (o, s) = blocks_out(
                blocks@,
                blocks@.len(),
                crate::docx2::emit::ctx::image_env(*old(ctx)),
                old(ctx).captions@,
                doc_state(*old(ctx)),
            );
            &&& final(x)@ == old(x)@ + o
            &&& doc_state(*final(ctx)) == s
        }),
        doc_frame(*old(ctx), *final(ctx)),
{
    let ghost x0 = x@;
    let ghost c0 = *ctx;
    let ghost srcs = crate::docx2::emit::ctx::image_env(*ctx);
    let ghost caps = ctx.captions@;
    let ghost s0 = doc_state(*ctx);
    let mut i: usize = 0;
    while i < blocks.len()
        invariant
            i <= blocks@.len(),
            blocks_fit(blocks@),
            srcs == crate::docx2::emit::ctx::image_env(c0),
            caps == c0.captions@,
            x@ == x0 + blocks_out(blocks@, i as nat, srcs, caps, s0).0,
            doc_state(*ctx) == blocks_out(blocks@, i as nat, srcs, caps, s0).1,
            doc_frame(c0, *ctx),
        decreases blocks@.len() - i,
    {
        proof {
            assert(block_fits(blocks@[i as int]));
        }
        render_block(&blocks[i], ctx, x);
        i = i + 1;
    }
}

/// Whether a block fits: the condition under which [`render_block`] can
/// run.
pub fn block_fits_exec(b: &Block) -> (r: bool)
    ensures
        r == block_fits(*b),
    decreases b, 1nat,
{
    if str_eq(b.name.as_str(), "table") {
        crate::docx::emit::table::table_fits_exec(b)
    } else if str_eq(b.name.as_str(), "section") {
        proof {
            reveal_strlit("table");
            reveal_strlit("section");
        }
        kids_fit_exec(b)
    } else {
        proof {
            reveal_strlit("table");
            reveal_strlit("section");
        }
        true
    }
}

fn kids_fit_exec(b: &Block) -> (r: bool)
    ensures
        r == kids_fit(*b, kids_of(*b).len()),
    decreases b, 0nat,
{
    if let Body::Children(children) = &b.body {
        let mut i: usize = 0;
        while i < children.len()
            invariant
                i <= children@.len(),
                b.body == Body::Children(*children),
                kids_fit(*b, i as nat),
            decreases children@.len() - i,
        {
            proof {
                assert(decreases_to!(*b => b.body));
                assert(decreases_to!(b.body => *children));
                assert(decreases_to!(*children => children@));
                assert(decreases_to!(children@ => children@[i as int]));
            }
            if !block_fits_exec(&children[i]) {
                proof {
                    lemma_kids_fit_fails(*b, (i + 1) as nat, children@.len());
                }
                return false;
            }
            i = i + 1;
        }
        true
    } else {
        true
    }
}

/// A child that does not fit makes every longer prefix not fit.
proof fn lemma_kids_fit_fails(b: Block, k: nat, n: nat)
    requires
        k <= n <= kids_of(b).len(),
        !kids_fit(b, k),
    ensures
        !kids_fit(b, n),
    decreases n - k,
{
    if k < n {
        lemma_kids_fit_fails(b, k + 1, n);
    }
}

/// Whether every block of a list fits.
pub fn blocks_fit_exec(blocks: &[Block]) -> (r: bool)
    ensures
        r == blocks_fit(blocks@),
{
    let mut i: usize = 0;
    while i < blocks.len()
        invariant
            i <= blocks@.len(),
            forall|j: int| 0 <= j < i ==> #[trigger] block_fits(blocks@[j]),
        decreases blocks@.len() - i,
    {
        if !block_fits_exec(&blocks[i]) {
            return false;
        }
        i = i + 1;
    }
    true
}
} // verus!
