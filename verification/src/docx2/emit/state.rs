//! The part of the emission context that body emission changes, as
//! plain values.

use vstd::prelude::*;

use super::ctx::{EmbeddedImage, EmitCtx};
use super::prepass::heading_views;
use super::run::{run_frame, run_state, RunState};

verus! {

/// An embedded image as plain values.
pub struct ImageView {
    pub rid: Seq<char>,
    pub zip_path: Seq<char>,
    pub bytes: Seq<u8>,
    pub ext: Seq<char>,
}

pub open spec fn image_views(v: Seq<EmbeddedImage>) -> Seq<ImageView> {
    v.map_values(|i: EmbeddedImage| ImageView { rid: i.rid@, zip_path: i.zip_path@, bytes: i.bytes@, ext: i.ext@ })
}

/// What block emission reads and changes: the run state, the image
/// registry, the heading registry, and the id and caption counters.
pub struct DocState {
    pub run: RunState,
    pub images: Seq<ImageView>,
    pub headings: Seq<(Seq<char>, u32, Seq<char>)>,
    pub next_bookmark: u32,
    pub next_drawing: u32,
    pub table_seq: u32,
    pub figure_seq: u32,
}

pub open spec fn doc_state(c: EmitCtx) -> DocState {
    DocState {
        run: run_state(c),
        images: image_views(c.images@),
        headings: heading_views(c.heading_anchors@),
        next_bookmark: c.next_bookmark_id,
        next_drawing: c.next_drawing_id,
        table_seq: c.table_caption_seq,
        figure_seq: c.figure_caption_seq,
    }
}

/// Everything block emission leaves alone.
pub open spec fn doc_frame(a: EmitCtx, b: EmitCtx) -> bool {
    &&& a.image_base == b.image_base
    &&& a.image_sources == b.image_sources
    &&& a.captions == b.captions
    &&& a.headers == b.headers
    &&& a.footers == b.footers
    &&& a.header_scopes == b.header_scopes
    &&& a.footer_scopes == b.footer_scopes
    &&& a.header_rids == b.header_rids
    &&& a.footer_rids == b.footer_rids
    &&& a.style_overrides == b.style_overrides
}

/// A run-level step changes only the run state.
pub proof fn lemma_run_step(a: EmitCtx, b: EmitCtx)
    requires
        run_frame(a, b),
    ensures
        doc_state(b) == (DocState { run: run_state(b), ..doc_state(a) }),
        doc_frame(a, b),
{
}

} // verus!
