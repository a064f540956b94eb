//! Pre-walk the cooked AST and populate the heading + caption
//! registries on [`EmitCtx`].
//!
//! The TOC field sits at the *start* of the document but renders
//! entries for every heading downstream. Walking the AST once up front
//! gives the TOC builder the full anchor list before any paragraph
//! emits. Header and footer blocks are set aside here too, with the
//! pages they apply to.

use vstd::prelude::*;

use crate::ast_v2::{lookup_str, Block, Body, Document};
use crate::text::{dec, prefixed_number, str_eq, to_owned_string};

use super::ctx::{
    next_index, CaptionAnchor, CaptionKind, EmitCtx, HeaderFooterScope, HeadingAnchor,
};
use super::run::{flat_text, flatten_inline_text};

verus! {

/// What the prepass reads and changes: the registries it fills and the
/// two caption counters.
pub struct PrepassState {
    pub headings: Seq<(Seq<char>, u32, Seq<char>)>,
    pub captions: Seq<(CaptionKind, Seq<char>, Seq<char>, u32)>,
    pub headers: Seq<Seq<Block>>,
    pub footers: Seq<Seq<Block>>,
    pub header_scopes: Seq<HeaderFooterScope>,
    pub footer_scopes: Seq<HeaderFooterScope>,
    pub table_seq: u32,
    pub figure_seq: u32,
}

pub open spec fn heading_views(v: Seq<HeadingAnchor>) -> Seq<(Seq<char>, u32, Seq<char>)> {
    v.map_values(|h: HeadingAnchor| (h.bookmark@, h.level, h.text@))
}

pub open spec fn caption_views(v: Seq<CaptionAnchor>) -> Seq<(CaptionKind, Seq<char>, Seq<char>, u32)> {
    v.map_values(|c: CaptionAnchor| (c.kind, c.bookmark@, c.text@, c.seq))
}

pub open spec fn slice_views(v: Seq<&[Block]>) -> Seq<Seq<Block>> {
    v.map_values(|s: &[Block]| s@)
}

/// The prepass state held by a context and the two counters.
pub open spec fn prepass_state(c: EmitCtx, table_seq: u32, figure_seq: u32) -> PrepassState {
    PrepassState {
        headings: heading_views(c.heading_anchors@),
        captions: caption_views(c.captions@),
        headers: slice_views(c.headers@),
        footers: slice_views(c.footers@),
        header_scopes: c.header_scopes@,
        footer_scopes: c.footer_scopes@,
        table_seq,
        figure_seq,
    }
}

/// Everything the prepass leaves alone.
pub open spec fn prepass_frame(a: EmitCtx, b: EmitCtx) -> bool {
    &&& a.image_base == b.image_base
    &&& a.image_sources == b.image_sources
    &&& a.images == b.images
    &&& a.hyperlinks == b.hyperlinks
    &&& a.footnotes == b.footnotes
    &&& a.header_rids == b.header_rids
    &&& a.footer_rids == b.footer_rids
    &&& a.style_overrides == b.style_overrides
    &&& a.table_caption_seq == b.table_caption_seq
    &&& a.figure_caption_seq == b.figure_caption_seq
    &&& a.next_rid == b.next_rid
    &&& a.next_drawing_id == b.next_drawing_id
    &&& a.next_bookmark_id == b.next_bookmark_id
    &&& a.next_footnote_id == b.next_footnote_id
}

/// `n + 1` as a release build computes it on `u32`.
pub open spec fn bump(n: u32) -> u32 {
    if n == u32::MAX {
        0
    } else {
        (n + 1) as u32
    }
}

/// The level of `h1` .. `h6`, and 0 for any other name.
pub open spec fn heading_level(name: Seq<char>) -> u32 {
    if name == "h1"@ {
        1
    } else if name == "h2"@ {
        2
    } else if name == "h3"@ {
        3
    } else if name == "h4"@ {
        4
    } else if name == "h5"@ {
        5
    } else if name == "h6"@ {
        6
    } else {
        0
    }
}

/// The pages a header or footer applies to, from its `scope` property:
/// `first`, `even`, or every page.
pub open spec fn scope_of(b: Block) -> HeaderFooterScope {
    match lookup_str(b.properties@, "scope"@) {
        Some(s) => if s == "first"@ {
            HeaderFooterScope::First
        } else if s == "even"@ {
            HeaderFooterScope::Even
        } else {
            HeaderFooterScope::Default
        },
        None => HeaderFooterScope::Default,
    }
}

/// The children of a block, or none.
pub open spec fn kids_of(b: Block) -> Seq<Block> {
    match b.body {
        Body::Children(kids) => kids@,
        _ => Seq::empty(),
    }
}

/// The prepass over one block.
pub open spec fn walk_block(b: Block, s: PrepassState) -> PrepassState
    decreases b, 1nat, 0nat,
{
    let name = b.name@;
    if heading_level(name) != 0 {
        PrepassState {
            headings: s.headings.push(
                ("_Toc"@ + dec(next_index(s.headings.len())), heading_level(name), flat_text(b)),
            ),
            ..s
        }
    } else if name == "table"@ {
        let s1 = match lookup_str(b.properties@, "caption"@) {
            Some(text) => {
                let n = bump(s.table_seq);
                PrepassState {
                    captions: s.captions.push(
                        (CaptionKind::Table, "_Toc_table_"@ + dec(n as nat), text, n),
                    ),
                    table_seq: n,
                    ..s
                }
            },
            None => s,
        };
        walk_kids(b, kids_of(b).len(), s1)
    } else if name == "image"@ {
        match lookup_str(b.properties@, "caption"@) {
            Some(text) => {
                let n = bump(s.figure_seq);
                PrepassState {
                    captions: s.captions.push(
                        (CaptionKind::Figure, "_Toc_figure_"@ + dec(n as nat), text, n),
                    ),
                    figure_seq: n,
                    ..s
                }
            },
            None => s,
        }
    } else if name == "header"@ {
        match b.body {
            Body::Children(kids) => PrepassState {
                headers: s.headers.push(kids@),
                header_scopes: s.header_scopes.push(scope_of(b)),
                ..s
            },
            _ => s,
        }
    } else if name == "footer"@ {
        match b.body {
            Body::Children(kids) => PrepassState {
                footers: s.footers.push(kids@),
                footer_scopes: s.footer_scopes.push(scope_of(b)),
                ..s
            },
            _ => s,
        }
    } else {
        walk_kids(b, kids_of(b).len(), s)
    }
}

/// The prepass over the first `k` children of `b`.
pub open spec fn walk_kids(b: Block, k: nat, s: PrepassState) -> PrepassState
    decreases b, 0nat, k,
{
    match b.body {
        Body::Children(kids) => {
            if k == 0 || k > kids@.len() {
                s
            } else {
                proof {
                    assert(decreases_to!(b => b.body));
                    assert(decreases_to!(b.body => kids));
                    assert(decreases_to!(kids => kids@));
                    assert(decreases_to!(kids@ => kids@[k - 1]));
                }
                walk_block(kids@[k - 1], walk_kids(b, (k - 1) as nat, s))
            }
        },
        _ => s,
    }
}

/// The prepass over the first `k` blocks of a list.
pub open spec fn walk_list(bs: Seq<Block>, k: nat, s: PrepassState) -> PrepassState
    decreases k,
{
    if k == 0 || k > bs.len() {
        s
    } else {
        walk_block(bs[k - 1], walk_list(bs, (k - 1) as nat, s))
    }
}

/// Populate `ctx.heading_anchors`, `ctx.captions` and the header and
/// footer registries from `doc`.
pub fn collect<'a>(doc: &'a Document, ctx: &mut EmitCtx<'a>)
    ensures
        prepass_state(*final(ctx), 0, 0) == (PrepassState {
            table_seq: prepass_state(*final(ctx), 0, 0).table_seq,
            figure_seq: prepass_state(*final(ctx), 0, 0).figure_seq,
            ..walk_list(doc.blocks@, doc.blocks@.len(), prepass_state(*old(ctx), 0, 0))
        }),
        prepass_frame(*old(ctx), *final(ctx)),
{
    let mut table_seq = 0u32;
    let mut figure_seq = 0u32;
    walk(doc.blocks.as_slice(), ctx, &mut table_seq, &mut figure_seq);
}

fn walk<'a>(blocks: &'a [Block], ctx: &mut EmitCtx<'a>, table_seq: &mut u32, figure_seq: &mut u32)
    ensures
        prepass_state(*final(ctx), *final(table_seq), *final(figure_seq)) == walk_list(
            blocks@,
            blocks@.len(),
            prepass_state(*old(ctx), *old(table_seq), *old(figure_seq)),
        ),
        prepass_frame(*old(ctx), *final(ctx)),
{
    let ghost s0 = prepass_state(*ctx, *table_seq, *figure_seq);
    let ghost c0 = *ctx;
    let mut i: usize = 0;
    while i < blocks.len()
        invariant
            i <= blocks@.len(),
            prepass_state(*ctx, *table_seq, *figure_seq) == walk_list(blocks@, i as nat, s0),
            prepass_frame(c0, *ctx),
        decreases blocks@.len() - i,
    {
        walk_one(&blocks[i], ctx, table_seq, figure_seq);
        i = i + 1;
    }
}

fn walk_children<'a>(b: &'a Block, ctx: &mut EmitCtx<'a>, table_seq: &mut u32, figure_seq: &mut u32)
    ensures
        prepass_state(*final(ctx), *final(table_seq), *final(figure_seq)) == walk_kids(
            *b,
            kids_of(*b).len(),
            prepass_state(*old(ctx), *old(table_seq), *old(figure_seq)),
        ),
        prepass_frame(*old(ctx), *final(ctx)),
    decreases b, 0nat,
{
    if let Body::Children(children) = &b.body {
        let ghost s0 = prepass_state(*ctx, *table_seq, *figure_seq);
        let ghost c0 = *ctx;
        let mut i: usize = 0;
        while i < children.len()
            invariant
                i <= children@.len(),
                b.body == Body::Children(*children),
                prepass_state(*ctx, *table_seq, *figure_seq) == walk_kids(*b, i as nat, s0),
                prepass_frame(c0, *ctx),
            decreases children@.len() - i,
        {
            proof {
                assert(decreases_to!(*b => b.body));
                assert(decreases_to!(b.body => *children));
                assert(decreases_to!(*children => children@));
                assert(decreases_to!(children@ => children@[i as int]));
            }
            walk_one(&children[i], ctx, table_seq, figure_seq);
            i = i + 1;
        }
    }
}

/// The level of a heading block name, 0 for other names.
pub(crate) fn heading_level_of(name: &str) -> (r: u32)
    ensures
        r == heading_level(name@),
{
    if str_eq(name, "h1") {
        1
    } else if str_eq(name, "h2") {
        2
    } else if str_eq(name, "h3") {
        3
    } else if str_eq(name, "h4") {
        4
    } else if str_eq(name, "h5") {
        5
    } else if str_eq(name, "h6") {
        6
    } else {
        0
    }
}

fn scope_of_exec(b: &Block) -> (r: HeaderFooterScope)
    ensures
        r == scope_of(*b),
{
    match b.prop_str("scope") {
        Some(s) => if str_eq(s, "first") {
            HeaderFooterScope::First
        } else if str_eq(s, "even") {
            HeaderFooterScope::Even
        } else {
            HeaderFooterScope::Default
        },
        None => HeaderFooterScope::Default,
    }
}

fn walk_one<'a>(b: &'a Block, ctx: &mut EmitCtx<'a>, table_seq: &mut u32, figure_seq: &mut u32)
    ensures
        prepass_state(*final(ctx), *final(table_seq), *final(figure_seq)) == walk_block(
            *b,
            prepass_state(*old(ctx), *old(table_seq), *old(figure_seq)),
        ),
        prepass_frame(*old(ctx), *final(ctx)),
    decreases b, 1nat,
{
    let name = b.name.as_str();
    let level = heading_level_of(name);
    if level != 0 {
        let idx = (ctx.heading_anchors.len() as u64).wrapping_add(1);
        let ghost before = ctx.heading_anchors@;
        let anchor = HeadingAnchor {
            bookmark: prefixed_number("_Toc", idx),
            level,
            text: flatten_inline_text(b),
        };
        ctx.heading_anchors.push(anchor);
        proof {
            assert(heading_views(ctx.heading_anchors@) =~= heading_views(before).push(
                ("_Toc"@ + dec(next_index(before.len())), level, flat_text(*b)),
            ));
        }
    } else if str_eq(name, "table") {
        if let Some(text) = b.prop_str("caption") {
            *table_seq = table_seq.wrapping_add(1);
            let n = *table_seq;
            let ghost before = ctx.captions@;
            ctx.captions.push(
                CaptionAnchor {
                    kind: CaptionKind::Table,
                    bookmark: prefixed_number("_Toc_table_", n as u64),
                    text: to_owned_string(text),
                    seq: n,
                },
            );
            proof {
                assert(caption_views(ctx.captions@) =~= caption_views(before).push(
                    (CaptionKind::Table, "_Toc_table_"@ + dec(n as nat), text@, n),
                ));
            }
        }
        walk_children(b, ctx, table_seq, figure_seq);
    } else if str_eq(name, "image") {
        if let Some(text) = b.prop_str("caption") {
            *figure_seq = figure_seq.wrapping_add(1);
            let n = *figure_seq;
            let ghost before = ctx.captions@;
            ctx.captions.push(
                CaptionAnchor {
                    kind: CaptionKind::Figure,
                    bookmark: prefixed_number("_Toc_figure_", n as u64),
                    text: to_owned_string(text),
                    seq: n,
                },
            );
            proof {
                assert(caption_views(ctx.captions@) =~= caption_views(before).push(
                    (CaptionKind::Figure, "_Toc_figure_"@ + dec(n as nat), text@, n),
                ));
            }
        }
    } else if str_eq(name, "header") {
        // Header and footer blocks become separate parts — capture
        // their children and do NOT recurse into them for heading /
        // caption collection (page chrome shouldn't contribute to the
        // TOC).
        if let Body::Children(children) = &b.body {
            let ghost before = ctx.headers@;
            ctx.headers.push(children.as_slice());
            ctx.header_scopes.push(scope_of_exec(b));
            proof {
                assert(slice_views(ctx.headers@) =~= slice_views(before).push(children@));
            }
        }
    } else if str_eq(name, "footer") {
        if let Body::Children(children) = &b.body {
            let ghost before = ctx.footers@;
            ctx.footers.push(children.as_slice());
            ctx.footer_scopes.push(scope_of_exec(b));
            proof {
                assert(slice_views(ctx.footers@) =~= slice_views(before).push(children@));
            }
        }
    } else {
        // Sections and any other container: recurse to find headings
        // and captions nested inside them.
        walk_children(b, ctx, table_seq, figure_seq);
    }
}

// ------------------------------------------------------------------
// What the registries always satisfy
// ------------------------------------------------------------------

/// The `i`-th heading is bookmarked `_Toc<i+1>`.
pub open spec fn headings_numbered(h: Seq<(Seq<char>, u32, Seq<char>)>) -> bool {
    forall|i: int| 0 <= i < h.len() ==> #[trigger] h[i].0 == "_Toc"@ + dec(next_index(i as nat))
}

/// Every caption is bookmarked by its kind and its own number.
pub open spec fn captions_named(c: Seq<(CaptionKind, Seq<char>, Seq<char>, u32)>) -> bool {
    forall|i: int|
        0 <= i < c.len() ==> #[trigger] c[i].1 == match c[i].0 {
            CaptionKind::Table => "_Toc_table_"@,
            CaptionKind::Figure => "_Toc_figure_"@,
        } + dec(c[i].3 as nat)
}

/// How many of the captions `c` are of kind `k`.
pub open spec fn kind_count(c: Seq<(CaptionKind, Seq<char>, Seq<char>, u32)>, k: CaptionKind) -> nat
    decreases c.len(),
{
    if c.len() == 0 {
        0
    } else {
        kind_count(c.drop_last(), k) + if c.last().0 == k {
            1nat
        } else {
            0nat
        }
    }
}

/// Captions are numbered per kind in order of appearance, 1, 2, 3, ...
/// (counting on `u32` as a release build does), and each counter holds the
/// number of its kind's captions so far.
pub open spec fn captions_counted(s: PrepassState) -> bool {
    &&& forall|i: int|
        0 <= i < s.captions.len() ==> #[trigger] s.captions[i].3 as nat == kind_count(
            s.captions.take(i + 1),
            s.captions[i].0,
        ) % 0x1_0000_0000
    &&& s.table_seq as nat == kind_count(s.captions, CaptionKind::Table) % 0x1_0000_0000
    &&& s.figure_seq as nat == kind_count(s.captions, CaptionKind::Figure) % 0x1_0000_0000
}

/// Headers and footers each carry one scope.
pub open spec fn chrome_paired(s: PrepassState) -> bool {
    s.headers.len() == s.header_scopes.len() && s.footers.len() == s.footer_scopes.len()
}

/// The prepass keeps heading bookmarks numbered by position, caption
/// bookmarks named after their numbers, and one scope per header and
/// footer.
pub proof fn lemma_walk_block_keeps(b: Block, s: PrepassState)
    requires
        headings_numbered(s.headings),
        captions_named(s.captions),
        chrome_paired(s),
    ensures
        headings_numbered(walk_block(b, s).headings),
        captions_named(walk_block(b, s).captions),
        chrome_paired(walk_block(b, s)),
    decreases b, 1nat, 0nat,
{
    let name = b.name@;
    if heading_level(name) != 0 {
        let t = walk_block(b, s);
        assert forall|i: int| 0 <= i < t.headings.len() implies #[trigger] t.headings[i].0 == "_Toc"@
            + dec(next_index(i as nat)) by {
            if i < s.headings.len() {
                assert(t.headings[i] == s.headings[i]);
            }
        }
    } else if name == "table"@ {
        let s1 = match lookup_str(b.properties@, "caption"@) {
            Some(text) => {
                let n = bump(s.table_seq);
                PrepassState {
                    captions: s.captions.push(
                        (CaptionKind::Table, "_Toc_table_"@ + dec(n as nat), text, n),
                    ),
                    table_seq: n,
                    ..s
                }
            },
            None => s,
        };
        assert forall|i: int| 0 <= i < s1.captions.len() implies #[trigger] s1.captions[i].1 == match s1.captions[i].0 {
            CaptionKind::Table => "_Toc_table_"@,
            CaptionKind::Figure => "_Toc_figure_"@,
        } + dec(s1.captions[i].3 as nat) by {
            if i < s.captions.len() {
                assert(s1.captions[i] == s.captions[i]);
            }
        }
        lemma_walk_kids_keeps(b, kids_of(b).len(), s1);
    } else if name == "image"@ {
        let t = walk_block(b, s);
        assert forall|i: int| 0 <= i < t.captions.len() implies #[trigger] t.captions[i].1 == match t.captions[i].0 {
            CaptionKind::Table => "_Toc_table_"@,
            CaptionKind::Figure => "_Toc_figure_"@,
        } + dec(t.captions[i].3 as nat) by {
            if i < s.captions.len() {
                assert(t.captions[i] == s.captions[i]);
            }
        }
    } else if name == "header"@ || name == "footer"@ {
    } else {
        lemma_walk_kids_keeps(b, kids_of(b).len(), s);
    }
}

proof fn lemma_walk_kids_keeps(b: Block, k: nat, s: PrepassState)
    requires
        headings_numbered(s.headings),
        captions_named(s.captions),
        chrome_paired(s),
    ensures
        headings_numbered(walk_kids(b, k, s).headings),
        captions_named(walk_kids(b, k, s).captions),
        chrome_paired(walk_kids(b, k, s)),
    decreases b, 0nat, k,
{
    match b.body {
        Body::Children(kids) => {
            if k == 0 || k > kids@.len() {
            } else {
                assert(decreases_to!(b => b.body));
                assert(decreases_to!(b.body => kids));
                assert(decreases_to!(kids => kids@));
                assert(decreases_to!(kids@ => kids@[k - 1]));
                lemma_walk_kids_keeps(b, (k - 1) as nat, s);
                lemma_walk_block_keeps(kids@[k - 1], walk_kids(b, (k - 1) as nat, s));
            }
        },
        _ => {},
    }
}

/// Over a whole list of blocks too.
pub proof fn lemma_walk_list_keeps(bs: Seq<Block>, k: nat, s: PrepassState)
    requires
        headings_numbered(s.headings),
        captions_named(s.captions),
        chrome_paired(s),
    ensures
        headings_numbered(walk_list(bs, k, s).headings),
        captions_named(walk_list(bs, k, s).captions),
        chrome_paired(walk_list(bs, k, s)),
    decreases k,
{
    if k == 0 || k > bs.len() {
    } else {
        lemma_walk_list_keeps(bs, (k - 1) as nat, s);
        lemma_walk_block_keeps(bs[k - 1], walk_list(bs, (k - 1) as nat, s));
    }
}

proof fn lemma_push_caption(s: PrepassState, e: (CaptionKind, Seq<char>, Seq<char>, u32))
    requires
        captions_counted(s),
        e.3 == bump(
            match e.0 {
                CaptionKind::Table => s.table_seq,
                CaptionKind::Figure => s.figure_seq,
            },
        ),
    ensures
        captions_counted(
            PrepassState {
                captions: s.captions.push(e),
                table_seq: if e.0 == CaptionKind::Table {
                    e.3
                } else {
                    s.table_seq
                },
                figure_seq: if e.0 == CaptionKind::Figure {
                    e.3
                } else {
                    s.figure_seq
                },
                ..s
            },
        ),
{
    let c = s.captions;
    let c2 = c.push(e);
    assert(c2.drop_last() =~= c);
    assert forall|i: int| 0 <= i < c2.len() implies #[trigger] c2[i].3 as nat == kind_count(
        c2.take(i + 1),
        c2[i].0,
    ) % 0x1_0000_0000 by {
        if i < c.len() {
            assert(c2.take(i + 1) =~= c.take(i + 1));
            assert(c2[i] == c[i]);
        } else {
            assert(c2.take(i + 1) =~= c2);
        }
    }
}

/// The prepass numbers the captions of each kind 1, 2, 3, ... in document
/// order.
pub proof fn lemma_walk_block_counts(b: Block, s: PrepassState)
    requires
        captions_counted(s),
    ensures
        captions_counted(walk_block(b, s)),
    decreases b, 1nat, 0nat,
{
    let name = b.name@;
    if heading_level(name) != 0 {
    } else if name == "table"@ {
        match lookup_str(b.properties@, "caption"@) {
            Some(text) => {
                let n = bump(s.table_seq);
                lemma_push_caption(s, (CaptionKind::Table, "_Toc_table_"@ + dec(n as nat), text, n));
                let s1 = PrepassState {
                    captions: s.captions.push(
                        (CaptionKind::Table, "_Toc_table_"@ + dec(n as nat), text, n),
                    ),
                    table_seq: n,
                    ..s
                };
                lemma_walk_kids_counts(b, kids_of(b).len(), s1);
            },
            None => {
                lemma_walk_kids_counts(b, kids_of(b).len(), s);
            },
        }
    } else if name == "image"@ {
        match lookup_str(b.properties@, "caption"@) {
            Some(text) => {
                let n = bump(s.figure_seq);
                lemma_push_caption(
                    s,
                    (CaptionKind::Figure, "_Toc_figure_"@ + dec(n as nat), text, n),
                );
            },
            None => {},
        }
    } else if name == "header"@ || name == "footer"@ {
    } else {
        lemma_walk_kids_counts(b, kids_of(b).len(), s);
    }
}

proof fn lemma_walk_kids_counts(b: Block, k: nat, s: PrepassState)
    requires
        captions_counted(s),
    ensures
        captions_counted(walk_kids(b, k, s)),
    decreases b, 0nat, k,
{
    match b.body {
        Body::Children(kids) => {
            if k == 0 || k > kids@.len() {
            } else {
                assert(decreases_to!(b => b.body));
                assert(decreases_to!(b.body => kids));
                assert(decreases_to!(kids => kids@));
                assert(decreases_to!(kids@ => kids@[k - 1]));
                lemma_walk_kids_counts(b, (k - 1) as nat, s);
                lemma_walk_block_counts(kids@[k - 1], walk_kids(b, (k - 1) as nat, s));
            }
        },
        _ => {},
    }
}

/// Over a whole list of blocks too; a fresh prepass starts with no
/// captions and both counters at zero.
pub proof fn lemma_walk_list_counts(bs: Seq<Block>, k: nat, s: PrepassState)
    requires
        captions_counted(s),
    ensures
        captions_counted(walk_list(bs, k, s)),
        captions_counted(PrepassState { captions: Seq::empty(), table_seq: 0, figure_seq: 0, ..s }),
    decreases k,
{
    if k == 0 || k > bs.len() {
    } else {
        lemma_walk_list_counts(bs, (k - 1) as nat, s);
        lemma_walk_block_counts(bs[k - 1], walk_list(bs, (k - 1) as nat, s));
    }
}

} // verus!
