//! Hyperlink + bookmark emission.
//!
//! Stem source:
//!
//!   `@link[to:"https://example.org"](click me)` — external
//!   `@link[to:"ref://_Toc_intro"](Introduction)` — anchor
//!   `@link[to:"#some-id"](See section)` — anchor (alt syntax)
//!
//! External targets become `<w:hyperlink r:id="rIdN">…</w:hyperlink>`
//! with a matching external relationship; anchor targets become
//! `<w:hyperlink w:anchor="bookmark">` with no relationship.

use vstd::prelude::*;

use crate::ast_v2::{lookup_str, Block, Body, TextPiece};
use crate::docx::xml::{attr1, attr2, empty_tag, group_concat, XmlBuf};
use crate::text::{dec, str_eq, strip_prefix, to_owned_string, u64_to_string};

use super::ctx::{link_urls, succ, EmitCtx};
use super::run::{
    emit_run, flat_text, flatten_inline_text, hyperlink_rpr, layer, link_body_out, link_out,
    link_pairs, rpr_hyperlink, run_frame, run_state, run_xml, state_add_link, target_of,
    text_pieces, LinkTargetView, RPr,
};

verus! {

broadcast use group_concat;

/// Resolved link target — either an in-package anchor or an external URI.
pub enum LinkTarget {
    Anchor(String),
    External(String),
}

pub open spec fn target_view(t: LinkTarget) -> LinkTargetView {
    match t {
        LinkTarget::Anchor(s) => LinkTargetView::Anchor(s@),
        LinkTarget::External(s) => LinkTargetView::External(s@),
    }
}

/// `ref://name` and `#name` name anchors; anything else is external.
pub fn parse_target(s: &str) -> (t: LinkTarget)
    ensures
        target_view(t) == target_of(s@),
{
    proof {
        reveal_strlit("ref://");
    }
    if let Some(anchor) = strip_prefix(s, "ref://") {
        return LinkTarget::Anchor(anchor);
    }
    if let Some(anchor) = strip_prefix(s, "#") {
        proof {
            reveal_strlit("#");
            assert(s@.take(1)[0] == s@[0]);
            assert(s@.skip(1) =~= s@.drop_first());
        }
        return LinkTarget::Anchor(anchor);
    }
    proof {
        reveal_strlit("#");
        if s@.len() > 0 && s@[0] == '#' {
            assert(s@.take(1) =~= "#"@);
        }
    }
    LinkTarget::External(to_owned_string(s))
}

/// Emit an `@link` inline. The visible runs come from the link's body,
/// walked recursively so nested inlines keep their formatting; the
/// Hyperlink character style is applied on top.
pub fn render_link(b: &Block, ctx: &mut EmitCtx, parent: &RPr, x: &mut XmlBuf)
    ensures
        final(x)@ == old(x)@ + link_out(*b, parent@, run_state(*old(ctx))).0,
        run_state(*final(ctx)) == link_out(*b, parent@, run_state(*old(ctx))).1,
        run_frame(*old(ctx), *final(ctx)),
    decreases b, 2nat,
{
    let target_raw = match b.prop_str("to") {
        Some(t) => t,
        None => {
            emit_link_body(b, ctx, parent, x);
            return;
        },
    };
    let target = parse_target(target_raw);
    let hl = rpr_hyperlink();
    let link_rpr = parent.merged(&hl);
    match target {
        LinkTarget::External(url) => {
            let ghost s0 = run_state(*ctx);
            let ghost expect = state_add_link(s0, url@);
            let rid = ctx.add_external_link(url.as_str());
            proof {
                let keys = s0.links.map_values(|p: (Seq<char>, Seq<char>)| p.1);
                assert(keys =~= link_urls(old(ctx).hyperlinks@));
                match crate::keys::first_match(keys, url@) {
                    Some(i) => {
                        crate::keys::lemma_first_match(keys, url@);
                        assert(s0.links[i].0 == old(ctx).hyperlinks@[i].rid@);
                        assert(rid@ == expect.0);
                        assert(run_state(*ctx) == expect.1);
                    },
                    None => {
                        assert(link_pairs(ctx.hyperlinks@) =~= s0.links.push((rid@, url@)));
                        assert(rid@ == expect.0);
                        assert(run_state(*ctx) == expect.1);
                    },
                }
            }
            x.open2("w:hyperlink", "r:id", rid.as_str(), "w:history", "1");
            emit_link_body(b, ctx, &link_rpr, x);
            x.close("w:hyperlink");
        },
        LinkTarget::Anchor(name) => {
            x.open2("w:hyperlink", "w:anchor", name.as_str(), "w:history", "1");
            emit_link_body(b, ctx, &link_rpr, x);
            x.close("w:hyperlink");
        },
    }
}

fn emit_link_body(b: &Block, ctx: &mut EmitCtx, rpr: &RPr, x: &mut XmlBuf)
    ensures
        final(x)@ == old(x)@ + link_body_out(*b, rpr@, run_state(*old(ctx))).0,
        run_state(*final(ctx)) == link_body_out(*b, rpr@, run_state(*old(ctx))).1,
        run_frame(*old(ctx), *final(ctx)),
    decreases b, 1nat,
{
    let has_text = match &b.body {
        Body::Text(pieces) => pieces.len() > 0,
        _ => false,
    };
    if has_text {
        super::run::render_body_with(b, ctx, x, rpr);
    } else {
        let fallback = match b.prop_str("to") {
            Some(t) => t,
            None => "link",
        };
        emit_plain_run(fallback, rpr, x);
    }
}

fn emit_plain_run(text: &str, rpr: &RPr, x: &mut XmlBuf)
    ensures
        final(x)@ == old(x)@ + run_xml(text@, rpr@),
{
    emit_run(text, rpr, x);
}

/// `<w:bookmarkStart w:id="N" w:name="name"/>`, the content, then
/// `<w:bookmarkEnd w:id="N"/>`.
pub open spec fn bookmark_xml(id: u32, name: Seq<char>, inner: Seq<char>) -> Seq<char> {
    empty_tag("w:bookmarkStart"@, attr2("w:id"@, dec(id as nat), "w:name"@, name)) + inner
        + empty_tag("w:bookmarkEnd"@, attr1("w:id"@, dec(id as nat)))
}

/// Emit a `<w:bookmarkStart>` + `<w:bookmarkEnd>` pair around the
/// serialized content `inner`. Allocates a fresh id from the context.
pub fn render_bookmark(name: &str, ctx: &mut EmitCtx, x: &mut XmlBuf, inner: &str)
    ensures
        final(x)@ == old(x)@ + bookmark_xml(old(ctx).next_bookmark_id, name@, inner@),
        final(ctx).next_bookmark_id == succ(old(ctx).next_bookmark_id),
        final(ctx).next_rid == old(ctx).next_rid,
        final(ctx).next_drawing_id == old(ctx).next_drawing_id,
        final(ctx).next_footnote_id == old(ctx).next_footnote_id,
        final(ctx).table_caption_seq == old(ctx).table_caption_seq,
        final(ctx).figure_caption_seq == old(ctx).figure_caption_seq,
        super::ctx::same_except_counters(*final(ctx), *old(ctx)),
{
    let id = ctx.alloc_bookmark_id();
    let id_s = u64_to_string(id as u64);
    x.empty2("w:bookmarkStart", "w:id", id_s.as_str(), "w:name", name);
    x.raw(inner);
    x.empty1("w:bookmarkEnd", "w:id", id_s.as_str());
}

/// Flatten the link body's text — used for TOC entry visible text.
pub fn flatten_link_text(b: &Block) -> (r: String)
    ensures
        r@ == flat_text(*b),
{
    flatten_inline_text(b)
}

} // verus!
