//! `word/document.xml` — the body of the docx.
//!
//! A prepass registers headings, captions and page chrome first; then
//! the top-level blocks are emitted in order through the per-shape
//! emitters, and the section properties close the body with the page
//! geometry and the header and footer references.

use vstd::prelude::*;

use crate::ast_v2::{lookup_str, Document, Property};
use crate::docx::xml::{
    attr2, attr_views, element, empty_tag, group_concat, no_attrs, XmlBuf,
};
use crate::docx2::emit::ctx::{rid_text, scope_w_type, succ, EmitCtx, HeaderFooterScope};
use crate::docx2::emit::paragraph::{blocks_fit, blocks_out, dxa_of, parse_dxa, render_blocks};
use crate::docx2::emit::prepass::{caption_views, collect, prepass_state, slice_views, walk_list};
use crate::docx2::emit::run::{run_state, RunState};
use crate::docx2::emit::state::{doc_state, DocState};
use crate::docx2::parts::document::{
    body_namespaces, document_xml, letter_sect_pr, open_document_root, pg_mar_attrs,
};
use crate::docx::parts::web_settings::ns_w;
use crate::text::{
    ascii_lower, dec, lower_char, split_once, split_once_spec, split_words, str_eq, trim,
    trim_spec, u64_to_string, views_of, words,
};

verus! {

broadcast use group_concat;

/// Page geometry resolved from document metadata. All values are in
/// dxa (twentieths of a point). Defaults match Word's "Letter, 1in
/// margins" preset.
#[derive(Clone, Copy, PartialEq, Eq, Structural)]
pub struct PageGeometry {
    pub width: u32,
    pub height: u32,
    pub top: u32,
    pub right: u32,
    pub bottom: u32,
    pub left: u32,
    pub header_offset: u32,
    pub footer_offset: u32,
}

/// Letter paper, 1" margins, ½" header and footer offsets.
pub open spec fn letter_geometry() -> PageGeometry {
    PageGeometry {
        width: 12240,
        height: 15840,
        top: 1440,
        right: 1440,
        bottom: 1440,
        left: 1440,
        header_offset: 720,
        footer_offset: 720,
    }
}

impl Default for PageGeometry {
    fn default() -> (g: Self)
        ensures
            g == letter_geometry(),
    {
        PageGeometry {
            width: 12240,
            height: 15840,
            top: 1440,
            right: 1440,
            bottom: 1440,
            left: 1440,
            header_offset: 720,
            footer_offset: 720,
        }
    }
}

/// A named paper size (any case) or `WIDTHxHEIGHT` with lengths in any
/// unit `parse_dxa` reads.
pub open spec fn page_size_of(s: Seq<char>) -> Option<(u32, u32)> {
    let t = trim_spec(s);
    let l = t.map_values(|c: char| lower_char(c));
    if l == "letter"@ {
        Some((12240, 15840))
    } else if l == "legal"@ {
        Some((12240, 20160))
    } else if l == "a4"@ {
        Some((11906, 16838))
    } else if l == "a5"@ {
        Some((8392, 11906))
    } else {
        let halves = match split_once_spec(t, 'x') {
            Some(p) => Some(p),
            None => split_once_spec(t, 'X'),
        };
        match halves {
            Some((w, h)) => match (dxa_of(trim_spec(w)), dxa_of(trim_spec(h))) {
                (Some(wd), Some(hd)) => Some((wd, hd)),
                _ => None,
            },
            None => None,
        }
    }
}

fn parse_page_size(s: &str) -> (r: Option<(u32, u32)>)
    ensures
        r == page_size_of(s@),
{
    let t = trim(s);
    let lower = ascii_lower(t.as_str());
    proof {
        reveal_strlit("letter");
        reveal_strlit("legal");
        reveal_strlit("a4");
        reveal_strlit("a5");
    }
    let l = lower.as_str();
    if str_eq(l, "letter") {
        return Some((12240, 15840));
    } else if str_eq(l, "legal") {
        return Some((12240, 20160));
    } else if str_eq(l, "a4") {
        return Some((11906, 16838));
    } else if str_eq(l, "a5") {
        return Some((8392, 11906));
    }
    let halves = match split_once(t.as_str(), 'x') {
        Some(p) => Some(p),
        None => split_once(t.as_str(), 'X'),
    };
    match halves {
        Some((w, h)) => {
            let wt = trim(w.as_str());
            let ht = trim(h.as_str());
            match (parse_dxa(wt.as_str()), parse_dxa(ht.as_str())) {
                (Some(wd), Some(hd)) => Some((wd, hd)),
                _ => None,
            }
        },
        None => None,
    }
}

/// The lengths of a list of texts that read as lengths, in order.
pub open spec fn dxa_list(ws: Seq<Seq<char>>) -> Seq<u32>
    decreases ws.len(),
{
    if ws.len() == 0 {
        Seq::empty()
    } else {
        let rest = dxa_list(ws.drop_last());
        match dxa_of(ws.last()) {
            Some(d) => rest.push(d),
            None => rest,
        }
    }
}

/// A length property, if set and valid.
pub open spec fn meta_dxa(props: Seq<Property>, key: Seq<char>) -> Option<u32> {
    match lookup_str(props, key) {
        Some(v) => dxa_of(v),
        None => None,
    }
}

/// The `margin` shorthand: one length for all four sides, or four for
/// top, right, bottom and left (CSS order); any other count is ignored.
pub open spec fn with_margin(g: PageGeometry, v: Seq<char>) -> PageGeometry {
    let ps = dxa_list(words(v));
    if ps.len() == 1 {
        PageGeometry { top: ps[0], right: ps[0], bottom: ps[0], left: ps[0], ..g }
    } else if ps.len() == 4 {
        PageGeometry { top: ps[0], right: ps[1], bottom: ps[2], left: ps[3], ..g }
    } else {
        g
    }
}

/// The page geometry a metadata header asks for: `page-size`, then the
/// `margin` shorthand, then `margin-top`, `margin-right`,
/// `margin-bottom`, `margin-left`, `header` and `footer`, each applied
/// when present and valid.
pub open spec fn geometry_of(props: Seq<Property>) -> PageGeometry {
    let g0 = letter_geometry();
    let g1 = match lookup_str(props, "page-size"@) {
        Some(v) => match page_size_of(v) {
            Some((w, h)) => PageGeometry { width: w, height: h, ..g0 },
            None => g0,
        },
        None => g0,
    };
    let g2 = match lookup_str(props, "margin"@) {
        Some(v) => with_margin(g1, v),
        None => g1,
    };
    let g3 = match meta_dxa(props, "margin-top"@) {
        Some(d) => PageGeometry { top: d, ..g2 },
        None => g2,
    };
    let g4 = match meta_dxa(props, "margin-right"@) {
        Some(d) => PageGeometry { right: d, ..g3 },
        None => g3,
    };
    let g5 = match meta_dxa(props, "margin-bottom"@) {
        Some(d) => PageGeometry { bottom: d, ..g4 },
        None => g4,
    };
    let g6 = match meta_dxa(props, "margin-left"@) {
        Some(d) => PageGeometry { left: d, ..g5 },
        None => g5,
    };
    let g7 = match meta_dxa(props, "header"@) {
        Some(d) => PageGeometry { header_offset: d, ..g6 },
        None => g6,
    };
    match meta_dxa(props, "footer"@) {
        Some(d) => PageGeometry { footer_offset: d, ..g7 },
        None => g7,
    }
}

/// How a metadata header sets the page: a valid side property
/// (`margin-top`, ...) wins over the `margin` shorthand, which gives four
/// values in CSS order (top, right, bottom, left) or one for all sides;
/// a side that nothing sets keeps the 1" default; `page-size` sets the
/// paper and nothing else, else the page is Letter.
#[verifier::rlimit(80)]
#[verifier::spinoff_prover]
pub proof fn lemma_geometry_precedence(props: Seq<Property>)
    ensures
        ({
            let g = geometry_of(props);
            let sh = match lookup_str(props, "margin"@) {
                Some(v) => dxa_list(words(v)),
                None => Seq::empty(),
            };
            &&& meta_dxa(props, "margin-top"@) matches Some(d) ==> g.top == d
            &&& meta_dxa(props, "margin-right"@) matches Some(d) ==> g.right == d
            &&& meta_dxa(props, "margin-bottom"@) matches Some(d) ==> g.bottom == d
            &&& meta_dxa(props, "margin-left"@) matches Some(d) ==> g.left == d
            &&& meta_dxa(props, "header"@) matches Some(d) ==> g.header_offset == d
            &&& meta_dxa(props, "footer"@) matches Some(d) ==> g.footer_offset == d
            &&& meta_dxa(props, "header"@) is None ==> g.header_offset == 720
            &&& meta_dxa(props, "footer"@) is None ==> g.footer_offset == 720
            &&& sh.len() == 4 ==> {
                &&& meta_dxa(props, "margin-top"@) is None ==> g.top == sh[0]
                &&& meta_dxa(props, "margin-right"@) is None ==> g.right == sh[1]
                &&& meta_dxa(props, "margin-bottom"@) is None ==> g.bottom == sh[2]
                &&& meta_dxa(props, "margin-left"@) is None ==> g.left == sh[3]
            }
            &&& sh.len() == 1 ==> {
                &&& meta_dxa(props, "margin-top"@) is None ==> g.top == sh[0]
                &&& meta_dxa(props, "margin-right"@) is None ==> g.right == sh[0]
                &&& meta_dxa(props, "margin-bottom"@) is None ==> g.bottom == sh[0]
                &&& meta_dxa(props, "margin-left"@) is None ==> g.left == sh[0]
            }
            &&& (sh.len() != 1 && sh.len() != 4) ==> {
                &&& meta_dxa(props, "margin-top"@) is None ==> g.top == 1440
                &&& meta_dxa(props, "margin-right"@) is None ==> g.right == 1440
                &&& meta_dxa(props, "margin-bottom"@) is None ==> g.bottom == 1440
                &&& meta_dxa(props, "margin-left"@) is None ==> g.left == 1440
            }
            &&& (lookup_str(props, "page-size"@) matches Some(v) && page_size_of(v) is Some) ==> (
            g.width, g.height) == page_size_of(lookup_str(props, "page-size"@).unwrap()).unwrap()
            &&& !(lookup_str(props, "page-size"@) matches Some(v) && page_size_of(v) is Some) ==> (
            g.width == 12240 && g.height == 15840)
        }),
{
}

fn parse_margins(v: &str) -> (r: Vec<u32>)
    ensures
        r@ == dxa_list(words(v@)),
{
    let ws = split_words(v);
    let mut out: Vec<u32> = Vec::new();
    let mut i: usize = 0;
    while i < ws.len()
        invariant
            i <= ws@.len(),
            views_of(ws@) == words(v@),
            out@ == dxa_list(views_of(ws@).take(i as int)),
        decreases ws@.len() - i,
    {
        proof {
            assert(views_of(ws@).take(i + 1).drop_last() =~= views_of(ws@).take(i as int));
            assert(views_of(ws@).take(i + 1).last() == ws@[i as int]@);
        }
        if let Some(d) = parse_dxa(ws[i].as_str()) {
            out.push(d);
        }
        i = i + 1;
    }
    proof {
        assert(views_of(ws@).take(i as int) =~= views_of(ws@));
    }
    out
}

fn meta_dxa_exec(doc: &Document, key: &str) -> (r: Option<u32>)
    ensures
        r == meta_dxa(doc.metadata.properties@, key@),
{
    match doc.metadata.get_str(key) {
        Some(v) => parse_dxa(v),
        None => None,
    }
}

impl PageGeometry {
    /// Read page geometry from the metadata header.
    ///
    /// Recognized keys (units accepted everywhere: pt / in / cm / mm /
    /// px / bare-number = pt):
    /// - `page-size`: `letter` / `a4` / `legal` / `a5`, or `WIDTHxHEIGHT`
    /// - `margin`: shorthand — `1in`, or four-value
    ///   `"top right bottom left"` (with explicit units)
    /// - `margin-top`, `margin-right`, `margin-bottom`, `margin-left`
    /// - `header`, `footer`: header/footer offset from the page edge
    ///   (OOXML's `w:header` / `w:footer`)
    pub fn from_metadata(doc: &Document) -> (g: Self)
        ensures
            g == geometry_of(doc.metadata.properties@),
    {
        let mut g = Self::default();
        if let Some(v) = doc.metadata.get_str("page-size") {
            if let Some((w, h)) = parse_page_size(v) {
                g.width = w;
                g.height = h;
            }
        }
        // Shorthand `margin: ...` — a single value applies to all four
        // sides; four space-separated values are top/right/bottom/left.
        if let Some(v) = doc.metadata.get_str("margin") {
            let parts = parse_margins(v);
            if parts.len() == 1 {
                g.top = parts[0];
                g.right = parts[0];
                g.bottom = parts[0];
                g.left = parts[0];
            } else if parts.len() == 4 {
                g.top = parts[0];
                g.right = parts[1];
                g.bottom = parts[2];
                g.left = parts[3];
            }
        }
        if let Some(d) = meta_dxa_exec(doc, "margin-top") {
            g.top = d;
        }
        if let Some(d) = meta_dxa_exec(doc, "margin-right") {
            g.right = d;
        }
        if let Some(d) = meta_dxa_exec(doc, "margin-bottom") {
            g.bottom = d;
        }
        if let Some(d) = meta_dxa_exec(doc, "margin-left") {
            g.left = d;
        }
        if let Some(d) = meta_dxa_exec(doc, "header") {
            g.header_offset = d;
        }
        if let Some(d) = meta_dxa_exec(doc, "footer") {
            g.footer_offset = d;
        }
        g
    }
}


// ------------------------------------------------------------------
// Section properties
// ------------------------------------------------------------------

/// The first `k` references of one kind: `(rid, scope)` pairs taken
/// side by side from the two lists.
pub open spec fn refs_xml(tag: Seq<char>, rids: Seq<Seq<char>>, scopes: Seq<HeaderFooterScope>, k: nat) -> Seq<
    char,
>
    decreases k,
{
    if k == 0 || k > rids.len() || k > scopes.len() {
        Seq::empty()
    } else {
        refs_xml(tag, rids, scopes, (k - 1) as nat) + empty_tag(
            tag,
            attr2("w:type"@, scope_w_type(scopes[k - 1]), "r:id"@, rids[k - 1]),
        )
    }
}

pub open spec fn pair_count(a: nat, b: nat) -> nat {
    if a < b {
        a
    } else {
        b
    }
}

/// Whether a first-page header or footer exists.
pub open spec fn has_first(hs: Seq<HeaderFooterScope>, fs: Seq<HeaderFooterScope>) -> bool {
    (exists|i: int| 0 <= i < hs.len() && hs[i] == HeaderFooterScope::First) || (exists|i: int|
        0 <= i < fs.len() && fs[i] == HeaderFooterScope::First)
}

/// `<w:sectPr>`: the header and footer references (before `pgSz`, per
/// the schema), the page size, the margins, and `<w:titlePg/>` when a
/// first-page header or footer exists so Word uses it on page 1.
pub open spec fn sect_pr_xml(
    g: PageGeometry,
    hrids: Seq<Seq<char>>,
    hscopes: Seq<HeaderFooterScope>,
    frids: Seq<Seq<char>>,
    fscopes: Seq<HeaderFooterScope>,
) -> Seq<char> {
    element(
        "w:sectPr"@,
        no_attrs(),
        refs_xml("w:headerReference"@, hrids, hscopes, pair_count(hrids.len(), hscopes.len()))
            + refs_xml("w:footerReference"@, frids, fscopes, pair_count(frids.len(), fscopes.len()))
            + page_xml(g) + if has_first(hscopes, fscopes) {
            empty_tag("w:titlePg"@, no_attrs())
        } else {
            Seq::empty()
        },
    )
}

fn any_first(scopes: &Vec<HeaderFooterScope>) -> (r: bool)
    ensures
        r == exists|i: int| 0 <= i < scopes@.len() && scopes@[i] == HeaderFooterScope::First,
{
    let mut i: usize = 0;
    while i < scopes.len()
        invariant
            i <= scopes@.len(),
            forall|j: int| 0 <= j < i ==> scopes@[j] != HeaderFooterScope::First,
        decreases scopes@.len() - i,
    {
        match scopes[i] {
            HeaderFooterScope::First => {
                return true;
            },
            _ => {},
        }
        i = i + 1;
    }
    false
}

fn refs_into(tag: &str, rids: &Vec<String>, scopes: &Vec<HeaderFooterScope>, x: &mut XmlBuf)
    ensures
        final(x)@ == old(x)@ + refs_xml(
            tag@,
            views_of(rids@),
            scopes@,
            pair_count(rids@.len(), scopes@.len()),
        ),
{
    let n = if rids.len() < scopes.len() {
        rids.len()
    } else {
        scopes.len()
    };
    let ghost x0 = x@;
    let mut i: usize = 0;
    while i < n
        invariant
            i <= n,
            n == pair_count(rids@.len(), scopes@.len()),
            x@ == x0 + refs_xml(tag@, views_of(rids@), scopes@, i as nat),
        decreases n - i,
    {
        x.empty2(tag, "w:type", scopes[i].w_type(), "r:id", rids[i].as_str());
        i = i + 1;
    }
}

/// The page size and the margins.
pub open spec fn page_xml(g: PageGeometry) -> Seq<char> {
    empty_tag("w:pgSz"@, attr2("w:w"@, dec(g.width as nat), "w:h"@, dec(g.height as nat))) + empty_tag(
        "w:pgMar"@,
        pg_mar_attrs(
            dec(g.top as nat),
            dec(g.right as nat),
            dec(g.bottom as nat),
            dec(g.left as nat),
            dec(g.header_offset as nat),
            dec(g.footer_offset as nat),
        ),
    )
}

fn page_into(geo: &PageGeometry, x: &mut XmlBuf)
    ensures
        final(x)@ == old(x)@ + page_xml(*geo),
{
    let w_s = u64_to_string(geo.width as u64);
    let h_s = u64_to_string(geo.height as u64);
    let top_s = u64_to_string(geo.top as u64);
    let right_s = u64_to_string(geo.right as u64);
    let bottom_s = u64_to_string(geo.bottom as u64);
    let left_s = u64_to_string(geo.left as u64);
    let header_s = u64_to_string(geo.header_offset as u64);
    let footer_s = u64_to_string(geo.footer_offset as u64);
    x.empty2("w:pgSz", "w:w", w_s.as_str(), "w:h", h_s.as_str());
    let a: &[(&str, &str)] = &[
        ("w:top", top_s.as_str()),
        ("w:right", right_s.as_str()),
        ("w:bottom", bottom_s.as_str()),
        ("w:left", left_s.as_str()),
        ("w:header", header_s.as_str()),
        ("w:footer", footer_s.as_str()),
        ("w:gutter", "0"),
    ];
    proof {
        assert(attr_views(a@) =~= pg_mar_attrs(
            dec(geo.top as nat),
            dec(geo.right as nat),
            dec(geo.bottom as nat),
            dec(geo.left as nat),
            dec(geo.header_offset as nat),
            dec(geo.footer_offset as nat),
        ));
    }
    x.empty("w:pgMar", a);
}

fn render_sect_pr_with_refs(
    x: &mut XmlBuf,
    geo: &PageGeometry,
    header_rids: &Vec<String>,
    header_scopes: &Vec<HeaderFooterScope>,
    footer_rids: &Vec<String>,
    footer_scopes: &Vec<HeaderFooterScope>,
)
    ensures
        final(x)@ == old(x)@ + sect_pr_xml(
            *geo,
            views_of(header_rids@),
            header_scopes@,
            views_of(footer_rids@),
            footer_scopes@,
        ),
{
    let first = any_first(header_scopes) || any_first(footer_scopes);
    x.open0("w:sectPr");
    let ghost x1 = x@;
    // Header/footer references come before pgSz per the schema.
    refs_into("w:headerReference", header_rids, header_scopes, x);
    refs_into("w:footerReference", footer_rids, footer_scopes, x);
    page_into(geo, x);
    // With a first-page header or footer, `<w:titlePg/>` makes Word
    // use the "first" variant on page 1.
    if first {
        x.empty0("w:titlePg");
    }
    x.close("w:sectPr");
}

// ------------------------------------------------------------------
// The body
// ------------------------------------------------------------------

/// `r` advanced `n` times.
pub open spec fn succ_n(r: u32, n: nat) -> u32
    decreases n,
{
    if n == 0 {
        r
    } else {
        succ(succ_n(r, (n - 1) as nat))
    }
}

/// The `n` rIds allocated one after another from `r`.
pub open spec fn rid_run(r: u32, n: nat) -> Seq<Seq<char>> {
    Seq::new(n, |i: int| rid_text(succ_n(r, i as nat)))
}

proof fn lemma_succ_n_add(r: u32, a: nat, b: nat)
    ensures
        succ_n(succ_n(r, a), b) == succ_n(r, a + b),
    decreases b,
{
    if b > 0 {
        lemma_succ_n_add(r, a, (b - 1) as nat);
    }
}

proof fn lemma_succ_n_value(r: u32, n: nat)
    requires
        r + n <= u32::MAX,
    ensures
        succ_n(r, n) == r + n,
    decreases n,
{
    if n > 0 {
        lemma_succ_n_value(r, (n - 1) as nat);
    }
}

/// The rIds drawn one after another from a counter at `r` are `rId{r}`,
/// `rId{r+1}`, …: strictly increasing and pairwise distinct, as long as
/// the counter does not pass `u32::MAX`.
pub proof fn lemma_rid_run_distinct(r: u32, n: nat)
    requires
        r + n <= u32::MAX + 1,
    ensures
        forall|k: int| 0 <= k < n ==> #[trigger] rid_run(r, n)[k] == rid_text((r + k) as u32),
        forall|j: int, k: int| 0 <= j < k < n ==> rid_run(r, n)[j] != rid_run(r, n)[k],
{
    assert forall|k: int| 0 <= k < n implies #[trigger] rid_run(r, n)[k] == rid_text((r + k) as u32) by {
        lemma_succ_n_value(r, k as nat);
    }
    assert forall|j: int, k: int| 0 <= j < k < n implies rid_run(r, n)[j] != rid_run(r, n)[k] by {
        lemma_succ_n_value(r, j as nat);
        lemma_succ_n_value(r, k as nat);
        crate::docx2::emit::ctx::lemma_rid_text_injective((r + j) as u32, (r + k) as u32);
    }
}

proof fn lemma_counter_steps(counters: Seq<u32>, i: int)
    requires
        0 <= i < counters.len(),
        forall|k: int| 0 <= k < counters.len() - 1 ==> #[trigger] counters[k + 1] == succ(counters[k]),
    ensures
        counters[i] == succ_n(counters[0], i as nat),
    decreases i,
{
    if i > 0 {
        lemma_counter_steps(counters, i - 1);
        assert(counters[(i - 1) + 1] == succ(counters[i - 1]));
    }
}

/// Successive draws from one context, each answering `rId` of the
/// counter and advancing it by one (as `EmitCtx::alloc_rid` does), are
/// the run of rIds from the first counter.
pub proof fn lemma_draws_are_rid_run(counters: Seq<u32>, draws: Seq<Seq<char>>)
    requires
        counters.len() == draws.len() + 1,
        forall|k: int| 0 <= k < draws.len() ==> #[trigger] draws[k] == rid_text(counters[k]),
        forall|k: int| 0 <= k < draws.len() ==> #[trigger] counters[k + 1] == succ(counters[k]),
    ensures
        draws == rid_run(counters[0], draws.len()),
{
    assert forall|k: int| 0 <= k < counters.len() - 1 implies #[trigger] counters[k + 1] == succ(counters[k]) by {
        assert(0 <= k < draws.len());
    }
    assert forall|k: int| 0 <= k < draws.len() implies draws[k] == rid_run(counters[0], draws.len())[k] by {
        lemma_counter_steps(counters, k);
    }
    assert(draws =~= rid_run(counters[0], draws.len()));
}

/// The context apart from its rIds for headers and footers, the rId
/// counter, the prepass registries and what emission changes.
pub open spec fn chrome_frame(a: EmitCtx, b: EmitCtx) -> bool {
    &&& a.image_base == b.image_base
    &&& a.image_sources == b.image_sources
    &&& a.style_overrides == b.style_overrides
    &&& a.headers == b.headers
    &&& a.footers == b.footers
    &&& a.header_scopes == b.header_scopes
    &&& a.footer_scopes == b.footer_scopes
    &&& a.captions == b.captions
}

/// Allocate one rId per header, then one per footer, so `sectPr` can
/// reference them and the packager can produce matching relationships.
fn alloc_chrome_rids(ctx: &mut EmitCtx)
    ensures
        ({
            let nh = old(ctx).headers@.len();
            let nf = old(ctx).footers@.len();
            let r0 = old(ctx).next_rid;
            &&& views_of(final(ctx).header_rids@) == views_of(old(ctx).header_rids@) + rid_run(r0, nh)
            &&& views_of(final(ctx).footer_rids@) == views_of(old(ctx).footer_rids@) + rid_run(
                succ_n(r0, nh),
                nf,
            )
            &&& doc_state(*final(ctx)) == (DocState {
                run: RunState { next_rid: succ_n(r0, nh + nf), ..run_state(*old(ctx)) },
                ..doc_state(*old(ctx))
            })
        }),
        chrome_frame(*old(ctx), *final(ctx)),
{
    let ghost c0 = *ctx;
    let ghost r0 = ctx.next_rid;
    let nh = ctx.headers.len();
    let mut i: usize = 0;
    while i < nh
        invariant
            i <= nh,
            nh == c0.headers@.len(),
            chrome_frame(c0, *ctx),
            views_of(ctx.header_rids@) == views_of(c0.header_rids@) + rid_run(r0, i as nat),
            ctx.footer_rids == c0.footer_rids,
            ctx.next_rid == succ_n(r0, i as nat),
            doc_state(*ctx) == (DocState {
                run: RunState { next_rid: succ_n(r0, i as nat), ..run_state(c0) },
                ..doc_state(c0)
            }),
        decreases nh - i,
    {
        let ghost before = ctx.header_rids@;
        let rid = ctx.alloc_rid();
        ctx.header_rids.push(rid);
        proof {
            assert(views_of(ctx.header_rids@) =~= views_of(before).push(rid_text(succ_n(r0, i as nat))));
            assert(views_of(c0.header_rids@) + rid_run(r0, (i + 1) as nat) =~= views_of(c0.header_rids@)
                + rid_run(r0, i as nat) + seq![rid_text(succ_n(r0, i as nat))]);
        }
        i = i + 1;
    }
    let ghost r1 = ctx.next_rid;
    let nf = ctx.footers.len();
    let mut j: usize = 0;
    while j < nf
        invariant
            j <= nf,
            nf == c0.footers@.len(),
            nh == c0.headers@.len(),
            r1 == succ_n(r0, nh as nat),
            chrome_frame(c0, *ctx),
            views_of(ctx.header_rids@) == views_of(c0.header_rids@) + rid_run(r0, nh as nat),
            views_of(ctx.footer_rids@) == views_of(c0.footer_rids@) + rid_run(r1, j as nat),
            ctx.next_rid == succ_n(r1, j as nat),
            doc_state(*ctx) == (DocState {
                run: RunState { next_rid: succ_n(r1, j as nat), ..run_state(c0) },
                ..doc_state(c0)
            }),
        decreases nf - j,
    {
        let ghost before = ctx.footer_rids@;
        let rid = ctx.alloc_rid();
        ctx.footer_rids.push(rid);
        proof {
            assert(views_of(ctx.footer_rids@) =~= views_of(before).push(rid_text(succ_n(r1, j as nat))));
            assert(views_of(c0.footer_rids@) + rid_run(r1, (j + 1) as nat) =~= views_of(c0.footer_rids@)
                + rid_run(r1, j as nat) + seq![rid_text(succ_n(r1, j as nat))]);
        }
        j = j + 1;
    }
    proof {
        lemma_succ_n_add(r0, nh as nat, nf as nat);
    }
}

fn clone_rids(v: &Vec<String>) -> (r: Vec<String>)
    ensures
        views_of(r@) == views_of(v@),
{
    let mut out: Vec<String> = Vec::new();
    let mut i: usize = 0;
    while i < v.len()
        invariant
            i <= v@.len(),
            views_of(out@) == views_of(v@.take(i as int)),
        decreases v@.len() - i,
    {
        let ghost before = out@;
        out.push(crate::text::to_owned_string(v[i].as_str()));
        proof {
            assert(views_of(out@) =~= views_of(before).push(v@[i as int]@));
            assert(views_of(v@.take(i + 1)) =~= views_of(v@.take(i as int)).push(v@[i as int]@));
        }
        i = i + 1;
    }
    proof {
        assert(v@.take(i as int) =~= v@);
    }
    out
}

fn clone_scopes(v: &Vec<HeaderFooterScope>) -> (r: Vec<HeaderFooterScope>)
    ensures
        r@ == v@,
{
    let mut out: Vec<HeaderFooterScope> = Vec::new();
    let mut i: usize = 0;
    while i < v.len()
        invariant
            i <= v@.len(),
            out@ == v@.take(i as int),
        decreases v@.len() - i,
    {
        out.push(v[i]);
        proof {
            assert(out@ =~= v@.take(i + 1));
        }
        i = i + 1;
    }
    proof {
        assert(v@.take(i as int) =~= v@);
    }
    out
}

/// Document body for the cooked AST. A prepass populates heading and
/// caption anchors first so the TOC field can render with full entries
/// even when it sits at the start of the document; header and footer
/// rIds are allocated next so `sectPr` can reference them; then the
/// blocks are emitted with the shared [`EmitCtx`], and the section
/// properties carry the page geometry from the metadata.
pub fn body<'a>(doc: &'a Document, ctx: &mut EmitCtx<'a>) -> (s: String)
    requires
        blocks_fit(doc.blocks@),
    ensures
        ({
            let pp = walk_list(doc.blocks@, doc.blocks@.len(), prepass_state(*old(ctx), 0, 0));
            let nh = pp.headers.len();
            let nf = pp.footers.len();
            let r0 = old(ctx).next_rid;
            let s0 = DocState {
                run: RunState { next_rid: succ_n(r0, nh + nf), ..run_state(*old(ctx)) },
                headings: pp.headings,
                ..doc_state(*old(ctx))
            };
            let (o, st) = blocks_out(
                doc.blocks@,
                doc.blocks@.len(),
                crate::docx2::emit::ctx::image_env(*old(ctx)),
                final(ctx).captions@,
                s0,
            );
            &&& caption_views(final(ctx).captions@) == pp.captions
            &&& slice_views(final(ctx).headers@) == pp.headers
            &&& slice_views(final(ctx).footers@) == pp.footers
            &&& final(ctx).header_scopes@ == pp.header_scopes
            &&& final(ctx).footer_scopes@ == pp.footer_scopes
            &&& views_of(final(ctx).header_rids@) == views_of(old(ctx).header_rids@) + rid_run(r0, nh)
            &&& views_of(final(ctx).footer_rids@) == views_of(old(ctx).footer_rids@) + rid_run(
                succ_n(r0, nh),
                nf,
            )
            &&& doc_state(*final(ctx)) == st
            &&& s@ == document_xml(
                body_namespaces(),
                o + sect_pr_xml(
                    geometry_of(doc.metadata.properties@),
                    views_of(final(ctx).header_rids@),
                    final(ctx).header_scopes@,
                    views_of(final(ctx).footer_rids@),
                    final(ctx).footer_scopes@,
                ),
            )
        }),
        final(ctx).image_base == old(ctx).image_base,
        final(ctx).image_sources == old(ctx).image_sources,
        final(ctx).style_overrides == old(ctx).style_overrides,
{
    let geo = PageGeometry::from_metadata(doc);
    let ghost c0 = *ctx;
    collect(doc, ctx);
    let ghost c1 = *ctx;
    alloc_chrome_rids(ctx);
    let ghost c2 = *ctx;
    let header_rids = clone_rids(&ctx.header_rids);
    let footer_rids = clone_rids(&ctx.footer_rids);
    let header_scopes = clone_scopes(&ctx.header_scopes);
    let footer_scopes = clone_scopes(&ctx.footer_scopes);
    proof {
        assert(doc_state(c2) == (DocState {
            run: RunState {
                next_rid: succ_n(c0.next_rid, (c1.headers@.len() + c1.footers@.len()) as nat),
                ..run_state(c0)
            },
            headings: heading_views_of(c1),
            ..doc_state(c0)
        }));
    }
    let mut x = XmlBuf::new();
    x.xml_decl();
    open_document_root(&mut x);
    x.open0("w:body");
    render_blocks(doc.blocks.as_slice(), ctx, &mut x);
    render_sect_pr_with_refs(
        &mut x,
        &geo,
        &header_rids,
        &header_scopes,
        &footer_rids,
        &footer_scopes,
    );
    x.close("w:body");
    x.close("w:document");
    x.finish()
}

pub open spec fn heading_views_of(c: EmitCtx) -> Seq<(Seq<char>, u32, Seq<char>)> {
    crate::docx2::emit::prepass::heading_views(c.heading_anchors@)
}

/// The minimal body — a single empty paragraph and the default section
/// properties: a known, fixed document.
pub fn minimal() -> (s: String)
    ensures
        s@ == document_xml(
            seq![("w"@, ns_w())],
            empty_tag("w:p"@, no_attrs()) + sect_pr_xml(
                letter_geometry(),
                Seq::empty(),
                Seq::empty(),
                Seq::empty(),
                Seq::empty(),
            ),
        ),
{
    let mut x = XmlBuf::new();
    x.xml_decl();
    crate::docx::parts::endnotes::open_root_w("w:document", &mut x);
    x.open0("w:body");
    x.empty0("w:p");
    let none_rids: Vec<String> = Vec::new();
    let none_scopes: Vec<HeaderFooterScope> = Vec::new();
    proof {
        assert(views_of(none_rids@) =~= Seq::<Seq<char>>::empty());
    }
    render_sect_pr_with_refs(&mut x, &PageGeometry::default(), &none_rids, &none_scopes, &none_rids, &none_scopes);
    x.close("w:body");
    x.close("w:document");
    x.finish()
}

} // verus!
