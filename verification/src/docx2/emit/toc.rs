//! TOC / List-of-Tables / List-of-Figures emission.
//!
//! Three reserved `section[id:...]` IDs:
//! - `toc` — table of contents.
//! - `list-of-tables` (or `lot`) — table-caption index.
//! - `list-of-figures` (or `lof`) — figure-caption index.
//!
//! Each emits a styled heading paragraph followed by:
//! - the field's `begin` + `instrText` + `separate` runs in one
//!   paragraph,
//! - one pre-populated entry paragraph per anchor (styled TOC<n>
//!   or TableofFigures) containing a hyperlink to the anchor and
//!   a PAGEREF for the page number,
//! - the field's `end` marker on the last entry's paragraph.
//!
//! No SDT (structured document tag) wrapper is emitted.

use vstd::prelude::*;

use crate::ast_v2::{lookup_str, Block};
use crate::docx::xml::{
    attr1, attr2, attr3, element, empty_tag, group_concat, no_attrs, text_elem, XmlBuf,
};
use crate::text::{
    concat2, dec, parse_u32, parse_unsigned, prefixed_number, push_dec, push_str, split_once,
    split_once_spec, str_eq, trim, trim_spec, u64_to_string,
};

use super::ctx::{CaptionAnchor, CaptionKind, EmitCtx, HeadingAnchor};
use super::prepass::heading_views;
use super::field::{
    complex_field, complex_field_head, fld_char_run, fld_char_run_into, page_ref_instr,
    render_complex, render_complex_begin, render_page_ref, text_run,
};

verus! {

broadcast use group_concat;

// ------------------------------------------------------------------
// The `levels` property
// ------------------------------------------------------------------

/// `v` limited to `lo..=hi`.
pub open spec fn clamp(v: int, lo: int, hi: int) -> int {
    if v < lo {
        lo
    } else if v > hi {
        hi
    } else {
        v
    }
}

/// A parsed number, or `d` when the text is not one.
pub open spec fn num_or(s: Seq<char>, d: int) -> int {
    match parse_unsigned(s, u32::MAX as nat) {
        Some(n) => n as int,
        None => d,
    }
}

/// The heading range of `section[id:toc, levels:...]`: `"start-end"`
/// (each side defaulting and clamped into `1..=6`, `end` no lower than
/// `start`), a single `"N"` meaning `1-N`, or `1-3`.
pub open spec fn levels_of(spec: Option<Seq<char>>) -> (int, int) {
    match spec {
        None => (1, 3),
        Some(raw) => {
            let s = trim_spec(raw);
            match split_once_spec(s, '-') {
                Some((lo_s, hi_s)) => {
                    let lo = clamp(num_or(trim_spec(lo_s), 1), 1, 6);
                    (lo, clamp(num_or(trim_spec(hi_s), 3), lo, 6))
                },
                None => match parse_unsigned(s, u32::MAX as nat) {
                    Some(n) => (1, clamp(n as int, 1, 6)),
                    None => (1, 3),
                },
            }
        },
    }
}

fn clamp_u32(v: u32, lo: u32, hi: u32) -> (r: u32)
    requires
        lo <= hi,
    ensures
        r == clamp(v as int, lo as int, hi as int),
{
    if v < lo {
        lo
    } else if v > hi {
        hi
    } else {
        v
    }
}

/// Parse the optional `levels` property on `section[id:toc]`.
/// Accepts `"start-end"` (e.g. `"1-3"`) or a single value `"N"`
/// meaning `1-N`. Defaults to `1-3`.
pub fn parse_levels(spec: Option<&str>) -> (r: (u32, u32))
    ensures
        (r.0 as int, r.1 as int) == levels_of(
            match spec {
                Some(s) => Some(s@),
                None => None,
            },
        ),
{
    let max = 6u32;
    let raw = match spec {
        Some(s) => s,
        None => return (1, 3),
    };
    let s = trim(raw);
    match split_once(s.as_str(), '-') {
        Some((lo_s, hi_s)) => {
            let lo_t = trim(lo_s.as_str());
            let lo = match parse_u32(lo_t.as_str()) {
                Some(n) => n,
                None => 1,
            };
            let lo = clamp_u32(lo, 1, max);
            let hi_t = trim(hi_s.as_str());
            let hi = match parse_u32(hi_t.as_str()) {
                Some(n) => n,
                None => 3,
            };
            let hi = clamp_u32(hi, lo, max);
            (lo, hi)
        },
        None => match parse_u32(s.as_str()) {
            Some(n) => (1, clamp_u32(n, 1, max)),
            None => (1, 3),
        },
    }
}

/// Whatever the text, the range is a non-empty part of `1..=6`.
pub proof fn lemma_levels_in_range(spec: Option<Seq<char>>)
    ensures
        1 <= levels_of(spec).0 <= levels_of(spec).1 <= 6,
{
}

// ------------------------------------------------------------------
// What the sections emit
// ------------------------------------------------------------------

/// A registered heading as plain values: (bookmark, level, text).
pub open spec fn heading_view(h: HeadingAnchor) -> (Seq<char>, u32, Seq<char>) {
    (h.bookmark@, h.level, h.text@)
}

/// The headings of `hv` whose level lies in `start..=end`, in order.
pub open spec fn headings_in(hv: Seq<(Seq<char>, u32, Seq<char>)>, start: int, end: int) -> Seq<
    (Seq<char>, u32, Seq<char>),
>
    decreases hv.len(),
{
    if hv.len() == 0 {
        Seq::empty()
    } else {
        let rest = headings_in(hv.drop_last(), start, end);
        let h = hv.last();
        if start <= h.1 <= end {
            rest.push(h)
        } else {
            rest
        }
    }
}

/// The headings listed for `start..=end` are exactly the registered headings
/// whose level `l` has `start <= l <= end`, both ends included, in the
/// order they were registered: a heading at the last level of the range is
/// listed, one outside it never is.
pub proof fn lemma_headings_in_levels(hv: Seq<(Seq<char>, u32, Seq<char>)>, start: int, end: int)
    ensures
        headings_in(hv, start, end) == hv.filter(
            |h: (Seq<char>, u32, Seq<char>)| start <= h.1 && h.1 <= end,
        ),
        forall|i: int|
            0 <= i < hv.len() ==> (headings_in(hv, start, end).contains(#[trigger] hv[i]) <==> start
                <= hv[i].1 <= end),
        forall|i: int|
            0 <= i < headings_in(hv, start, end).len() ==> start <= #[trigger] headings_in(
                hv,
                start,
                end,
            )[i].1 <= end,
    decreases hv.len(),
{
    let pred = |h: (Seq<char>, u32, Seq<char>)| start <= h.1 && h.1 <= end;
    broadcast use vstd::seq_lib::group_filter_ensures;

    reveal(Seq::filter);
    if hv.len() > 0 {
        lemma_headings_in_levels(hv.drop_last(), start, end);
        assert(headings_in(hv.drop_last(), start, end) == hv.drop_last().filter(pred));
        assert(pred(hv.last()) == (start <= hv.last().1 <= end));
    }
    assert(headings_in(hv, start, end) == hv.filter(pred));
    assert forall|i: int|
        0 <= i < hv.len() implies (headings_in(hv, start, end).contains(#[trigger] hv[i]) <==> start
            <= hv[i].1 <= end) by {
        if headings_in(hv, start, end).contains(hv[i]) {
            let k = choose|k: int|
                0 <= k < hv.filter(pred).len() && hv.filter(pred)[k] == hv[i];
            assert(pred(hv.filter(pred)[k]));
        }
        if start <= hv[i].1 <= end {
            assert(pred(hv[i]));
        }
    }
    assert forall|i: int|
        0 <= i < headings_in(hv, start, end).len() implies start <= #[trigger] headings_in(
            hv,
            start,
            end,
        )[i].1 <= end by {
        assert(pred(hv.filter(pred)[i]));
    }
}

/// The styled heading paragraph above an index.
pub open spec fn index_heading(title: Seq<char>) -> Seq<char> {
    element(
        "w:p"@,
        no_attrs(),
        element("w:pPr"@, no_attrs(), empty_tag("w:pStyle"@, attr1("w:val"@, "TOCHeading"@)))
            + element("w:r"@, no_attrs(), text_elem("w:t"@, no_attrs(), title, false)),
    )
}

/// A paragraph style property.
pub open spec fn p_style(style: Seq<char>) -> Seq<char> {
    element("w:pPr"@, no_attrs(), empty_tag("w:pStyle"@, attr1("w:val"@, style)))
}

/// ` TOC \o "start-end" \h \z \u `.
pub open spec fn toc_instr(start: int, end: int) -> Seq<char> {
    " TOC \\o \""@ + dec(start as nat) + seq!['-'] + dec(end as nat) + "\" \\h \\z \\u "@
}

/// A run in the Hyperlink character style.
pub open spec fn hyperlink_styled_run(text: Seq<char>) -> Seq<char> {
    element(
        "w:r"@,
        no_attrs(),
        element("w:rPr"@, no_attrs(), empty_tag("w:rStyle"@, attr1("w:val"@, "Hyperlink"@)))
            + text_elem("w:t"@, no_attrs(), text, true),
    )
}

/// The paragraph properties of a TOC entry: style `TOC<min(level, 9)>`
/// and a dotted right tab.
pub open spec fn toc_entry_ppr(level: u32) -> Seq<char> {
    element(
        "w:pPr"@,
        no_attrs(),
        empty_tag(
            "w:pStyle"@,
            attr1(
                "w:val"@,
                "TOC"@ + dec(
                    if level < 9 {
                        level as nat
                    } else {
                        9
                    },
                ),
            ),
        ) + element(
            "w:tabs"@,
            no_attrs(),
            empty_tag("w:tab"@, attr3("w:val"@, "right"@, "w:leader"@, "dot"@, "w:pos"@, "9350"@)),
        ),
    )
}

/// The hyperlink of a TOC entry: the heading text, a tab, the page.
pub open spec fn toc_entry_link(bookmark: Seq<char>, text: Seq<char>) -> Seq<char> {
    element(
        "w:hyperlink"@,
        attr2("w:anchor"@, bookmark, "w:history"@, "1"@),
        hyperlink_styled_run(text) + element(
            "w:r"@,
            no_attrs(),
            text_elem("w:tab"@, no_attrs(), Seq::empty(), false),
        ) + complex_field(page_ref_instr(bookmark), text_run("1"@)),
    )
}

/// One pre-populated TOC entry: its paragraph properties, the field's
/// opening runs on the first entry, the hyperlink to the heading, and
/// the field's end on the last entry.
#[verifier::opaque]
pub open spec fn toc_entry_xml(
    e: (Seq<char>, u32, Seq<char>),
    first: bool,
    last: bool,
    instr: Seq<char>,
) -> Seq<char> {
    element(
        "w:p"@,
        no_attrs(),
        toc_entry_ppr(e.1) + (if first {
            complex_field_head(instr)
        } else {
            Seq::empty()
        }) + toc_entry_link(e.0, e.2) + (if last {
            fld_char_run("end"@)
        } else {
            Seq::empty()
        }),
    )
}

/// The first `k` entries of `es`.
pub open spec fn toc_entries_xml(es: Seq<(Seq<char>, u32, Seq<char>)>, k: nat, instr: Seq<char>) -> Seq<
    char,
>
    decreases k,
{
    if k == 0 {
        Seq::empty()
    } else {
        toc_entries_xml(es, (k - 1) as nat, instr) + toc_entry_xml(
            es[k - 1],
            k - 1 == 0,
            k - 1 == es.len() - 1,
            instr,
        )
    }
}

/// The table of contents for headings at levels `start..=end`: the
/// heading paragraph, then one entry per heading, or a single `TOC1`
/// paragraph holding the empty field for Word to fill on F9.
pub open spec fn toc_xml(start: int, end: int, hv: Seq<(Seq<char>, u32, Seq<char>)>) -> Seq<char> {
    let es = headings_in(hv, start, end);
    let instr = toc_instr(start, end);
    index_heading("Table of Contents"@) + if es.len() == 0 {
        element("w:p"@, no_attrs(), p_style("TOC1"@) + complex_field(instr, Seq::empty()))
    } else {
        toc_entries_xml(es, es.len(), instr)
    }
}

/// A registered caption as plain values: (bookmark, text, number).
pub open spec fn caption_view(c: CaptionAnchor) -> (Seq<char>, Seq<char>, u32) {
    (c.bookmark@, c.text@, c.seq)
}

/// The captions of kind `k`, in order.
pub open spec fn captions_of(cs: Seq<CaptionAnchor>, k: CaptionKind) -> Seq<
    (Seq<char>, Seq<char>, u32),
>
    decreases cs.len(),
{
    if cs.len() == 0 {
        Seq::empty()
    } else {
        let rest = captions_of(cs.drop_last(), k);
        if cs.last().kind == k {
            rest.push(caption_view(cs.last()))
        } else {
            rest
        }
    }
}

/// A list of tables (or figures) lists exactly the captions of that kind,
/// each once, in the order they were registered.
pub proof fn lemma_captions_of_kind(cs: Seq<CaptionAnchor>, k: CaptionKind)
    ensures
        captions_of(cs, k) == cs.filter(|c: CaptionAnchor| c.kind == k).map_values(
            |c: CaptionAnchor| caption_view(c),
        ),
    decreases cs.len(),
{
    reveal(Seq::filter);
    let pred = |c: CaptionAnchor| c.kind == k;
    if cs.len() > 0 {
        lemma_captions_of_kind(cs.drop_last(), k);
        let f = cs.drop_last().filter(pred);
        if cs.last().kind == k {
            assert(cs.filter(pred) == f.push(cs.last()));
            assert(f.push(cs.last()).map_values(|c: CaptionAnchor| caption_view(c)) =~= f.map_values(
                |c: CaptionAnchor| caption_view(c),
            ).push(caption_view(cs.last())));
        } else {
            assert(cs.filter(pred) == f);
        }
    } else {
        assert(cs.filter(pred).map_values(|c: CaptionAnchor| caption_view(c)) =~= Seq::empty());
    }
}

/// `Table` or `Figure`.
pub open spec fn caption_label(k: CaptionKind) -> Seq<char> {
    match k {
        CaptionKind::Table => "Table"@,
        CaptionKind::Figure => "Figure"@,
    }
}

/// ` TOC \h \z \c "Label" `.
pub open spec fn caption_instr(k: CaptionKind) -> Seq<char> {
    " TOC \\h \\z \\c \""@ + caption_label(k) + "\" "@
}

/// `List of Tables` or `List of Figures`.
pub open spec fn caption_index_title(k: CaptionKind) -> Seq<char> {
    match k {
        CaptionKind::Table => "List of Tables"@,
        CaptionKind::Figure => "List of Figures"@,
    }
}

/// One entry of a caption index: `Label N. text` linked to the caption.
#[verifier::opaque]
pub open spec fn caption_entry_xml(
    k: CaptionKind,
    c: (Seq<char>, Seq<char>, u32),
    first: bool,
    last: bool,
) -> Seq<char> {
    element(
        "w:p"@,
        no_attrs(),
        p_style("TableofFigures"@) + (if first {
            complex_field_head(caption_instr(k))
        } else {
            Seq::empty()
        }) + element(
            "w:hyperlink"@,
            attr2("w:anchor"@, c.0, "w:history"@, "1"@),
            hyperlink_styled_run(
                caption_label(k) + seq![' '] + dec(c.2 as nat) + seq!['.', ' '] + c.1,
            ),
        ) + (if last {
            fld_char_run("end"@)
        } else {
            Seq::empty()
        }),
    )
}

/// The first `n` entries of a caption index.
pub open spec fn caption_entries_xml(
    k: CaptionKind,
    es: Seq<(Seq<char>, Seq<char>, u32)>,
    n: nat,
) -> Seq<char>
    decreases n,
{
    if n == 0 {
        Seq::empty()
    } else {
        caption_entries_xml(k, es, (n - 1) as nat) + caption_entry_xml(
            k,
            es[n - 1],
            n - 1 == 0,
            n - 1 == es.len() - 1,
        )
    }
}

/// A list of tables or of figures.
pub open spec fn caption_index_xml(k: CaptionKind, cs: Seq<CaptionAnchor>) -> Seq<char> {
    let es = captions_of(cs, k);
    index_heading(caption_index_title(k)) + if es.len() == 0 {
        element(
            "w:p"@,
            no_attrs(),
            p_style("TableofFigures"@) + complex_field(caption_instr(k), Seq::empty()),
        )
    } else {
        caption_entries_xml(k, es, es.len())
    }
}

/// What a reserved section emits, or `None` for any other section.
pub open spec fn toc_section_xml(
    b: Block,
    hv: Seq<(Seq<char>, u32, Seq<char>)>,
    cs: Seq<CaptionAnchor>,
) -> Option<
    Seq<char>,
> {
    match lookup_str(b.properties@, "id"@) {
        None => None,
        Some(id) => if id == "toc"@ {
            let lv = levels_of(lookup_str(b.properties@, "levels"@));
            Some(toc_xml(lv.0, lv.1, hv))
        } else if id == "list-of-tables"@ || id == "lot"@ {
            Some(caption_index_xml(CaptionKind::Table, cs))
        } else if id == "list-of-figures"@ || id == "lof"@ {
            Some(caption_index_xml(CaptionKind::Figure, cs))
        } else {
            None
        },
    }
}

// ------------------------------------------------------------------
// Emission
// ------------------------------------------------------------------

/// Try to render `b` as one of the reserved TOC sections. Returns
/// `true` if the block was handled — the caller skips the
/// usual `section` recursion in that case. The context is only read.
#[verifier::rlimit(40)]
#[verifier::spinoff_prover]
pub fn try_render_toc_section(b: &Block, ctx: &mut EmitCtx, x: &mut XmlBuf) -> (handled: bool)
    ensures
        handled == toc_section_xml(*b, heading_views(old(ctx).heading_anchors@), old(ctx).captions@)
            is Some,
        final(x)@ == old(x)@ + match toc_section_xml(
            *b,
            heading_views(old(ctx).heading_anchors@),
            old(ctx).captions@,
        ) {
            Some(o) => o,
            None => Seq::empty(),
        },
        *final(ctx) == *old(ctx),
{
    let id = match b.prop_str("id") {
        Some(id) => id,
        None => return false,
    };
    proof {
        reveal_strlit("toc");
        reveal_strlit("list-of-tables");
        reveal_strlit("lot");
        reveal_strlit("list-of-figures");
        reveal_strlit("lof");
    }
    if str_eq(id, "toc") {
        let (start, end) = parse_levels(b.prop_str("levels"));
        render_toc(start, end, ctx, x);
        true
    } else if str_eq(id, "list-of-tables") || str_eq(id, "lot") {
        render_caption_index(CaptionKind::Table, ctx, x);
        true
    } else if str_eq(id, "list-of-figures") || str_eq(id, "lof") {
        render_caption_index(CaptionKind::Figure, ctx, x);
        true
    } else {
        false
    }
}

fn index_heading_into(title: &str, x: &mut XmlBuf)
    ensures
        final(x)@ == old(x)@ + index_heading(title@),
{
    x.open0("w:p");
    x.open0("w:pPr");
    x.empty1("w:pStyle", "w:val", "TOCHeading");
    x.close("w:pPr");
    x.open0("w:r");
    x.text0("w:t", title, false);
    x.close("w:r");
    x.close("w:p");
}

fn p_style_into(style: &str, x: &mut XmlBuf)
    ensures
        final(x)@ == old(x)@ + p_style(style@),
{
    x.open0("w:pPr");
    x.empty1("w:pStyle", "w:val", style);
    x.close("w:pPr");
}

fn hyperlink_styled_run_into(text: &str, x: &mut XmlBuf)
    ensures
        final(x)@ == old(x)@ + hyperlink_styled_run(text@),
{
    x.open0("w:r");
    x.open0("w:rPr");
    x.empty1("w:rStyle", "w:val", "Hyperlink");
    x.close("w:rPr");
    x.text0("w:t", text, true);
    x.close("w:r");
}

fn toc_instr_exec(start: u32, end: u32) -> (s: String)
    ensures
        s@ == toc_instr(start as int, end as int),
{
    let mut s = String::new();
    push_str(&mut s, " TOC \\o \"");
    push_dec(&mut s, start as u64);
    push_str(&mut s, "-");
    push_dec(&mut s, end as u64);
    push_str(&mut s, "\" \\h \\z \\u ");
    proof {
        reveal_strlit("-");
        assert(s@ =~= toc_instr(start as int, end as int));
    }
    s
}

/// The registered headings whose level lies in `start..=end`.
fn select_headings<'a>(hs: &'a Vec<HeadingAnchor>, start: u32, end: u32) -> (r: Vec<&'a HeadingAnchor>)
    ensures
        r@.map_values(|h: &HeadingAnchor| heading_view(*h)) == headings_in(
            heading_views(hs@),
            start as int,
            end as int,
        ),
{
    let mut out: Vec<&HeadingAnchor> = Vec::new();
    let mut i: usize = 0;
    while i < hs.len()
        invariant
            i <= hs@.len(),
            out@.map_values(|h: &HeadingAnchor| heading_view(*h)) == headings_in(
                heading_views(hs@.take(i as int)),
                start as int,
                end as int,
            ),
        decreases hs@.len() - i,
    {
        let h = &hs[i];
        proof {
            assert(hs@.take(i + 1).drop_last() =~= hs@.take(i as int));
            assert(heading_views(hs@.take(i + 1)).drop_last() =~= heading_views(hs@.take(i as int)));
            assert(heading_views(hs@.take(i + 1)).last() == heading_view(*h));
        }
        if h.level >= start && h.level <= end {
            let ghost before = out@;
            out.push(h);
            proof {
                assert(out@.map_values(|h: &HeadingAnchor| heading_view(*h)) =~= before.map_values(
                    |h: &HeadingAnchor| heading_view(*h),
                ).push(heading_view(*h)));
            }
        }
        i = i + 1;
    }
    proof {
        assert(hs@.take(i as int) =~= hs@);
    }
    out
}

fn toc_entry_ppr_into(level: u32, x: &mut XmlBuf)
    ensures
        final(x)@ == old(x)@ + toc_entry_ppr(level),
{
    let level = if level < 9 {
        level
    } else {
        9
    };
    let style = prefixed_number("TOC", level as u64);
    x.open0("w:pPr");
    x.empty1("w:pStyle", "w:val", style.as_str());
    x.open0("w:tabs");
    x.empty3("w:tab", "w:val", "right", "w:leader", "dot", "w:pos", "9350");
    x.close("w:tabs");
    x.close("w:pPr");
}

fn toc_entry_link_into(bookmark: &str, text: &str, x: &mut XmlBuf)
    ensures
        final(x)@ == old(x)@ + toc_entry_link(bookmark@, text@),
{
    x.open2("w:hyperlink", "w:anchor", bookmark, "w:history", "1");
    let ghost s4 = x@;
    hyperlink_styled_run_into(text, x);
    x.open0("w:r");
    x.text0("w:tab", "", false);
    x.close("w:r");
    render_page_ref(bookmark, "1", x);
    proof {
        reveal_strlit("");
        assert(x@ =~= s4 + (hyperlink_styled_run(text@) + element(
            "w:r"@,
            no_attrs(),
            text_elem("w:tab"@, no_attrs(), Seq::empty(), false),
        ) + complex_field(page_ref_instr(bookmark@), text_run("1"@))));
    }
    x.close("w:hyperlink");
}

fn toc_entry_into(
    e: &HeadingAnchor,
    first: bool,
    last: bool,
    instr: &str,
    x: &mut XmlBuf,
)
    ensures
        final(x)@ == old(x)@ + toc_entry_xml(heading_view(*e), first, last, instr@),
{
    x.open0("w:p");
    toc_entry_ppr_into(e.level, x);
    if first {
        // First entry carries the field's begin/instr/separate.
        render_complex_begin(instr, x);
    }
    // Entry text + tab + page number, all inside an anchor hyperlink.
    toc_entry_link_into(e.bookmark.as_str(), e.text.as_str(), x);
    if last {
        // Last entry closes the field.
        fld_char_run_into("end", x);
    }
    proof {
        reveal(toc_entry_xml);
    }
    x.close("w:p");
}

fn render_toc(start: u32, end: u32, ctx: &mut EmitCtx, x: &mut XmlBuf)
    ensures
        final(x)@ == old(x)@ + toc_xml(start as int, end as int, heading_views(old(ctx).heading_anchors@)),
        *final(ctx) == *old(ctx),
{
    // Header paragraph — centering comes from the TOCHeading style
    // itself, not from a per-paragraph override.
    index_heading_into("Table of Contents", x);
    let ghost s1 = x@;
    let instr = toc_instr_exec(start, end);
    let entries = select_headings(&ctx.heading_anchors, start, end);
    let ghost es = headings_in(heading_views(ctx.heading_anchors@), start as int, end as int);
    if entries.len() == 0 {
        // Empty TOC — a single placeholder paragraph with the field so
        // Word can populate it on F9.
        x.open0("w:p");
        p_style_into("TOC1", x);
        render_complex(instr.as_str(), x, "");
        proof {
            reveal_strlit("");
        }
        x.close("w:p");
        return;
    }
    let n = entries.len();
    let mut i: usize = 0;
    while i < n
        invariant
            n == entries@.len(),
            n > 0,
            i <= n,
            entries@.map_values(|h: &HeadingAnchor| heading_view(*h)) == es,
            x@ == s1 + toc_entries_xml(es, i as nat, instr@),
        decreases n - i,
    {
        proof {
            assert(es[i as int] == heading_view(*entries@[i as int]));
        }
        toc_entry_into(entries[i], i == 0, i == n - 1, instr.as_str(), x);
        i = i + 1;
    }
}

/// The registered captions of kind `k`.
fn select_captions<'a>(cs: &'a Vec<CaptionAnchor>, k: CaptionKind) -> (r: Vec<&'a CaptionAnchor>)
    ensures
        r@.map_values(|c: &CaptionAnchor| caption_view(*c)) == captions_of(cs@, k),
{
    let mut out: Vec<&CaptionAnchor> = Vec::new();
    let mut i: usize = 0;
    while i < cs.len()
        invariant
            i <= cs@.len(),
            out@.map_values(|c: &CaptionAnchor| caption_view(*c)) == captions_of(
                cs@.take(i as int),
                k,
            ),
        decreases cs@.len() - i,
    {
        let c = &cs[i];
        proof {
            assert(cs@.take(i + 1).drop_last() =~= cs@.take(i as int));
        }
        if c.kind == k {
            let ghost before = out@;
            out.push(c);
            proof {
                assert(out@.map_values(|c: &CaptionAnchor| caption_view(*c)) =~= before.map_values(
                    |c: &CaptionAnchor| caption_view(*c),
                ).push(caption_view(*c)));
            }
        }
        i = i + 1;
    }
    proof {
        assert(cs@.take(i as int) =~= cs@);
    }
    out
}

#[verifier::rlimit(50)]
#[verifier::spinoff_prover]
fn caption_entry_into(
    kind: CaptionKind,
    label: &str,
    instr: &str,
    c: &CaptionAnchor,
    first: bool,
    last: bool,
    x: &mut XmlBuf,
)
    requires
        label@ == caption_label(kind),
        instr@ == caption_instr(kind),
    ensures
        final(x)@ == old(x)@ + caption_entry_xml(kind, caption_view(*c), first, last),
{
    x.open0("w:p");
    p_style_into("TableofFigures", x);
    if first {
        render_complex_begin(instr, x);
    }
    // "Table N. <text>" with hyperlink to the caption anchor.
    let mut display = String::new();
    push_str(&mut display, label);
    push_str(&mut display, " ");
    push_dec(&mut display, c.seq as u64);
    push_str(&mut display, ". ");
    push_str(&mut display, c.text.as_str());
    proof {
        reveal_strlit(" ");
        reveal_strlit(". ");
        assert(display@ =~= caption_label(kind) + seq![' '] + dec(c.seq as nat) + seq!['.', ' ']
            + c.text@);
    }
    x.open2("w:hyperlink", "w:anchor", c.bookmark.as_str(), "w:history", "1");
    hyperlink_styled_run_into(display.as_str(), x);
    x.close("w:hyperlink");
    if last {
        fld_char_run_into("end", x);
    }
    proof {
        reveal(caption_entry_xml);
    }
    x.close("w:p");
}

fn caption_texts(kind: CaptionKind) -> (r: (&'static str, &'static str, &'static str))
    ensures
        r.0@ == caption_label(kind),
        r.1@ == caption_instr(kind),
        r.2@ == caption_index_title(kind),
{
    proof {
        reveal_strlit(" TOC \\h \\z \\c \"Table\" ");
        reveal_strlit(" TOC \\h \\z \\c \"Figure\" ");
        reveal_strlit(" TOC \\h \\z \\c \"");
        reveal_strlit("\" ");
        reveal_strlit("Table");
        reveal_strlit("Figure");
    }
    match kind {
        CaptionKind::Table => {
            let r = ("Table", " TOC \\h \\z \\c \"Table\" ", "List of Tables");
            proof {
                assert(r.1@ =~= caption_instr(kind));
            }
            r
        },
        CaptionKind::Figure => {
            let r = ("Figure", " TOC \\h \\z \\c \"Figure\" ", "List of Figures");
            proof {
                assert(r.1@ =~= caption_instr(kind));
            }
            r
        },
    }
}

fn caption_entries_into(
    kind: CaptionKind,
    label: &str,
    instr: &str,
    entries: &Vec<&CaptionAnchor>,
    x: &mut XmlBuf,
)
    requires
        label@ == caption_label(kind),
        instr@ == caption_instr(kind),
    ensures
        final(x)@ == old(x)@ + caption_entries_xml(
            kind,
            entries@.map_values(|c: &CaptionAnchor| caption_view(*c)),
            entries@.len(),
        ),
{
    let ghost s1 = x@;
    let ghost es = entries@.map_values(|c: &CaptionAnchor| caption_view(*c));
    let n = entries.len();
    let mut i: usize = 0;
    while i < n
        invariant
            n == entries@.len(),
            i <= n,
            label@ == caption_label(kind),
            instr@ == caption_instr(kind),
            es == entries@.map_values(|c: &CaptionAnchor| caption_view(*c)),
            x@ == s1 + caption_entries_xml(kind, es, i as nat),
        decreases n - i,
    {
        proof {
            assert(es[i as int] == caption_view(*entries@[i as int]));
        }
        caption_entry_into(kind, label, instr, entries[i], i == 0, i == n - 1, x);
        i = i + 1;
    }
}

fn render_caption_index(kind: CaptionKind, ctx: &mut EmitCtx, x: &mut XmlBuf)
    ensures
        final(x)@ == old(x)@ + caption_index_xml(kind, old(ctx).captions@),
        *final(ctx) == *old(ctx),
{
    let (label, instr, header) = caption_texts(kind);
    index_heading_into(header, x);
    let entries = select_captions(&ctx.captions, kind);
    if entries.len() == 0 {
        x.open0("w:p");
        p_style_into("TableofFigures", x);
        render_complex(instr, x, "");
        proof {
            reveal_strlit("");
        }
        x.close("w:p");
        return;
    }
    caption_entries_into(kind, label, instr, &entries, x);
}

} // verus!
