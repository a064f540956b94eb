//! Mutable context threaded through body emission.
//!
//! Tracks per-document side-state that the OOXML body references and
//! the packager turns into parts and relationships: embedded images,
//! external hyperlinks, footnotes, bookmarks, heading and caption
//! anchors, header/footer contents, and the id counters.
//!
//! Counters advance with wrapping arithmetic, as the unchecked `+ 1` of a
//! release build does.

use vstd::prelude::*;

use crate::ast_v2::Block;
use crate::keys::{first_match, lemma_first_match, lemma_first_match_is};
use crate::text::{concat2, dec, ov, prefixed_number, push_dec, push_str, str_eq, to_owned_string};

verus! {

/// One image embedded in the docx.
pub struct EmbeddedImage {
    /// Relationship ID used in `<a:blip r:embed="rIdN"/>`.
    pub rid: String,
    /// Path inside the ZIP, e.g. `word/media/image1.png`.
    pub zip_path: String,
    /// Image bytes — written to the ZIP verbatim.
    pub bytes: Vec<u8>,
    /// File extension used in Content_Types and the part path.
    pub ext: String,
}

/// An external hyperlink relationship.
pub struct HyperlinkRel {
    pub rid: String,
    pub url: String,
}

/// One user footnote: its id and plain-text content.
pub struct FootnoteEntry {
    pub id: u32,
    pub text: String,
}

/// A heading registered for the table of contents.
pub struct HeadingAnchor {
    pub bookmark: String,
    pub level: u32,
    pub text: String,
}

#[derive(Clone, Copy, Debug, PartialEq, Eq, Structural)]
pub enum CaptionKind {
    Table,
    Figure,
}

/// A table or figure caption registered for the lists of tables and
/// figures.
pub struct CaptionAnchor {
    pub kind: CaptionKind,
    pub bookmark: String,
    pub text: String,
    pub seq: u32,
}

/// Which pages a header or footer applies to.
#[derive(Clone, Copy, Debug, PartialEq, Eq, Structural)]
pub enum HeaderFooterScope {
    Default,
    First,
    Even,
}

/// The `w:type` attribute value of a scope.
pub open spec fn scope_w_type(s: HeaderFooterScope) -> Seq<char> {
    match s {
        HeaderFooterScope::Default => "default"@,
        HeaderFooterScope::First => "first"@,
        HeaderFooterScope::Even => "even"@,
    }
}

impl HeaderFooterScope {
    pub fn w_type(self) -> (r: &'static str)
        ensures
            r@ == scope_w_type(self),
    {
        match self {
            HeaderFooterScope::Default => "default",
            HeaderFooterScope::First => "first",
            HeaderFooterScope::Even => "even",
        }
    }
}

/// A source-supplied override of one built-in style:
/// `style[id:Heading1, size:14pt, color:"#000000", ...]`. Every field
/// left `None` keeps the built-in value.
pub struct StyleOverride {
    pub id: String,
    pub before_dxa: Option<u32>,
    pub after_dxa: Option<u32>,
    pub line_dxa: Option<u32>,
    pub align: Option<String>,
    pub keep_next: Option<bool>,
    pub keep_lines: Option<bool>,
    pub outline_lvl: Option<u32>,
    pub contextual_spacing: Option<bool>,
    pub border_top: Option<bool>,
    pub size_hp: Option<u32>,
    pub color: Option<String>,
    pub bold: Option<bool>,
    pub italic: Option<bool>,
    pub strike: Option<bool>,
    pub underline: Option<String>,
    pub font: Option<String>,
}

/// A style override as plain values.
pub struct OverrideView {
    pub id: Seq<char>,
    pub before_dxa: Option<u32>,
    pub after_dxa: Option<u32>,
    pub line_dxa: Option<u32>,
    pub align: Option<Seq<char>>,
    pub keep_next: Option<bool>,
    pub keep_lines: Option<bool>,
    pub outline_lvl: Option<u32>,
    pub contextual_spacing: Option<bool>,
    pub border_top: Option<bool>,
    pub size_hp: Option<u32>,
    pub color: Option<Seq<char>>,
    pub bold: Option<bool>,
    pub italic: Option<bool>,
    pub strike: Option<bool>,
    pub underline: Option<Seq<char>>,
    pub font: Option<Seq<char>>,
}

impl View for StyleOverride {
    type V = OverrideView;

    open spec fn view(&self) -> OverrideView {
        OverrideView {
            id: self.id@,
            before_dxa: self.before_dxa,
            after_dxa: self.after_dxa,
            line_dxa: self.line_dxa,
            align: ov(self.align),
            keep_next: self.keep_next,
            keep_lines: self.keep_lines,
            outline_lvl: self.outline_lvl,
            contextual_spacing: self.contextual_spacing,
            border_top: self.border_top,
            size_hp: self.size_hp,
            color: ov(self.color),
            bold: self.bold,
            italic: self.italic,
            strike: self.strike,
            underline: ov(self.underline),
            font: ov(self.font),
        }
    }
}

/// Every override of a list, as plain values.
pub open spec fn override_views(o: Seq<StyleOverride>) -> Seq<OverrideView> {
    o.map_values(|x: StyleOverride| x@)
}

/// An image the caller read for an `image[src:...]`: the `src` text, the
/// extension of the path it resolved to, and the bytes or the message
/// describing why they could not be read.
pub struct ImageSource {
    pub src: String,
    pub ext: Option<String>,
    pub data: Result<Vec<u8>, String>,
}

/// Where image files come from: the directory relative paths resolve
/// against, and the files as read.
pub struct ImageEnv {
    pub base: Option<Seq<char>>,
    pub srcs: Seq<ImageSource>,
}

/// The images a context can draw on.
pub open spec fn image_env(c: EmitCtx) -> ImageEnv {
    ImageEnv { base: crate::text::ov(c.image_base), srcs: c.image_sources@ }
}

pub struct EmitCtx<'a> {
    /// Directory used to resolve relative `image[src:...]` paths.
    pub image_base: Option<String>,
    /// Image files read ahead of emission, by `src` text.
    pub image_sources: Vec<ImageSource>,
    /// Embedded images, in the order they were emitted.
    pub images: Vec<EmbeddedImage>,
    /// External hyperlinks, one per distinct URL.
    pub hyperlinks: Vec<HyperlinkRel>,
    /// User footnotes, in order of appearance.
    pub footnotes: Vec<FootnoteEntry>,
    /// Headings, in document order.
    pub heading_anchors: Vec<HeadingAnchor>,
    /// Table and figure captions, in document order.
    pub captions: Vec<CaptionAnchor>,
    /// Children of each `header{...}` block.
    pub headers: Vec<&'a [Block]>,
    /// Children of each `footer{...}` block.
    pub footers: Vec<&'a [Block]>,
    pub header_scopes: Vec<HeaderFooterScope>,
    pub footer_scopes: Vec<HeaderFooterScope>,
    pub header_rids: Vec<String>,
    pub footer_rids: Vec<String>,
    /// Source-supplied style overrides.
    pub style_overrides: Vec<StyleOverride>,
    /// Counter behind the cached number of table captions.
    pub table_caption_seq: u32,
    /// Counter behind the cached number of figure captions.
    pub figure_caption_seq: u32,
    /// Monotonic counter every kind of rId draws from.
    pub next_rid: u32,
    /// Number used for the next `wp:docPr` / `pic:cNvPr` id.
    pub next_drawing_id: u32,
    /// Number used for the next bookmark id.
    pub next_bookmark_id: u32,
    /// Number used for the next footnote id.
    pub next_footnote_id: u32,
}

/// `n + 1` as a release build computes it on `u32`.
pub open spec fn succ(n: u32) -> u32 {
    if n == u32::MAX {
        0
    } else {
        (n + 1) as u32
    }
}

/// `n + 1` on a 64-bit count, wrapping as a release build does.
pub open spec fn next_index(n: nat) -> nat {
    if n >= u64::MAX {
        0
    } else {
        n + 1
    }
}

/// `rIdN`.
pub open spec fn rid_text(n: u32) -> Seq<char> {
    "rId"@ + dec(n as nat)
}

/// The URLs of the registered hyperlinks, in order.
pub open spec fn link_urls(links: Seq<HyperlinkRel>) -> Seq<Seq<char>> {
    links.map_values(|l: HyperlinkRel| l.url@)
}

/// What `add_external_link` answers: the rId of the first link to the
/// same URL, or a fresh one.
pub open spec fn link_rid(ctx: EmitCtx, url: Seq<char>) -> Seq<char> {
    match first_match(link_urls(ctx.hyperlinks@), url) {
        Some(i) => ctx.hyperlinks@[i].rid@,
        None => rid_text(ctx.next_rid),
    }
}

/// The parts of the context that emission never changes.
pub open spec fn fixed_parts_same(a: EmitCtx, b: EmitCtx) -> bool {
    &&& a.image_base == b.image_base
    &&& a.image_sources == b.image_sources
    &&& a.headers == b.headers
    &&& a.footers == b.footers
    &&& a.header_scopes == b.header_scopes
    &&& a.footer_scopes == b.footer_scopes
    &&& a.header_rids == b.header_rids
    &&& a.footer_rids == b.footer_rids
    &&& a.style_overrides == b.style_overrides
}

/// The same context but for the fields listed.
pub open spec fn same_except_counters(a: EmitCtx, b: EmitCtx) -> bool {
    &&& a.image_sources == b.image_sources
    &&& a.images == b.images
    &&& a.hyperlinks == b.hyperlinks
    &&& a.footnotes == b.footnotes
    &&& a.heading_anchors == b.heading_anchors
    &&& a.captions == b.captions
    &&& a.headers == b.headers
    &&& a.footers == b.footers
    &&& a.header_scopes == b.header_scopes
    &&& a.footer_scopes == b.footer_scopes
    &&& a.header_rids == b.header_rids
    &&& a.footer_rids == b.footer_rids
    &&& a.style_overrides == b.style_overrides
    &&& a.image_base == b.image_base
}

impl<'a> EmitCtx<'a> {
    /// A fresh context whose first allocated rId will be `rId{start_rid}`.
    pub fn new(image_base: Option<&str>, start_rid: u32) -> (c: Self)
        ensures
            c.next_rid == start_rid,
            c.next_drawing_id == 1,
            c.next_bookmark_id == 1,
            c.next_footnote_id == 1,
            c.table_caption_seq == 0,
            c.figure_caption_seq == 0,
            c.images@.len() == 0,
            c.hyperlinks@.len() == 0,
            c.footnotes@.len() == 0,
            c.heading_anchors@.len() == 0,
            c.captions@.len() == 0,
            c.headers@.len() == 0,
            c.footers@.len() == 0,
            c.header_scopes@.len() == 0,
            c.footer_scopes@.len() == 0,
            c.header_rids@.len() == 0,
            c.footer_rids@.len() == 0,
            c.style_overrides@.len() == 0,
            c.image_sources@.len() == 0,
            match image_base {
                Some(b) => c.image_base matches Some(s) && s@ == b@,
                None => c.image_base is None,
            },
    {
        let base = match image_base {
            Some(b) => Some(to_owned_string(b)),
            None => None,
        };
        Self {
            image_base: base,
            image_sources: Vec::new(),
            images: Vec::new(),
            hyperlinks: Vec::new(),
            footnotes: Vec::new(),
            heading_anchors: Vec::new(),
            captions: Vec::new(),
            headers: Vec::new(),
            footers: Vec::new(),
            header_scopes: Vec::new(),
            footer_scopes: Vec::new(),
            header_rids: Vec::new(),
            footer_rids: Vec::new(),
            style_overrides: Vec::new(),
            table_caption_seq: 0,
            figure_caption_seq: 0,
            next_rid: start_rid,
            next_drawing_id: 1,
            next_bookmark_id: 1,
            next_footnote_id: 1,
        }
    }

    /// Allocate the next `rIdN` string.
    pub fn alloc_rid(&mut self) -> (r: String)
        ensures
            r@ == rid_text(old(self).next_rid),
            final(self).next_rid == succ(old(self).next_rid),
            final(self).next_drawing_id == old(self).next_drawing_id,
            final(self).next_bookmark_id == old(self).next_bookmark_id,
            final(self).next_footnote_id == old(self).next_footnote_id,
            final(self).table_caption_seq == old(self).table_caption_seq,
            final(self).figure_caption_seq == old(self).figure_caption_seq,
            same_except_counters(*final(self), *old(self)),
    {
        let n = self.next_rid;
        self.next_rid = n.wrapping_add(1);
        prefixed_number("rId", n as u64)
    }

    /// Allocate the next drawing id (wp:docPr / pic:cNvPr).
    pub fn alloc_drawing_id(&mut self) -> (id: u32)
        ensures
            id == old(self).next_drawing_id,
            final(self).next_drawing_id == succ(old(self).next_drawing_id),
            final(self).next_rid == old(self).next_rid,
            final(self).next_bookmark_id == old(self).next_bookmark_id,
            final(self).next_footnote_id == old(self).next_footnote_id,
            final(self).table_caption_seq == old(self).table_caption_seq,
            final(self).figure_caption_seq == old(self).figure_caption_seq,
            same_except_counters(*final(self), *old(self)),
    {
        let id = self.next_drawing_id;
        self.next_drawing_id = id.wrapping_add(1);
        id
    }

    /// Allocate the next bookmark id.
    pub fn alloc_bookmark_id(&mut self) -> (id: u32)
        ensures
            id == old(self).next_bookmark_id,
            final(self).next_bookmark_id == succ(old(self).next_bookmark_id),
            final(self).next_rid == old(self).next_rid,
            final(self).next_drawing_id == old(self).next_drawing_id,
            final(self).next_footnote_id == old(self).next_footnote_id,
            final(self).table_caption_seq == old(self).table_caption_seq,
            final(self).figure_caption_seq == old(self).figure_caption_seq,
            same_except_counters(*final(self), *old(self)),
    {
        let id = self.next_bookmark_id;
        self.next_bookmark_id = id.wrapping_add(1);
        id
    }

    /// Register an embedded image; returns its allocated rId. The part
    /// path is `word/media/image{N}.{ext}` with `N` one more than the
    /// number of images already registered.
    pub fn add_image(&mut self, bytes: Vec<u8>, ext: &str) -> (rid: String)
        ensures
            rid@ == rid_text(old(self).next_rid),
            final(self).next_rid == succ(old(self).next_rid),
            final(self).images@.len() == old(self).images@.len() + 1,
            forall|i: int|
                0 <= i < old(self).images@.len() ==> final(self).images@[i] == old(self).images@[i],
            final(self).images@.last().rid@ == rid@,
            final(self).images@.last().zip_path@ == "word/media/image"@ + dec(
                next_index(old(self).images@.len()),
            ) + "."@ + ext@,
            final(self).images@.last().bytes@ == bytes@,
            final(self).images@.last().ext@ == ext@,
            final(self).hyperlinks == old(self).hyperlinks,
            final(self).footnotes == old(self).footnotes,
            final(self).heading_anchors == old(self).heading_anchors,
            final(self).captions == old(self).captions,
            final(self).next_drawing_id == old(self).next_drawing_id,
            final(self).next_bookmark_id == old(self).next_bookmark_id,
            final(self).next_footnote_id == old(self).next_footnote_id,
            final(self).table_caption_seq == old(self).table_caption_seq,
            final(self).figure_caption_seq == old(self).figure_caption_seq,
            fixed_parts_same(*final(self), *old(self)),
    {
        let n = (self.images.len() as u64).wrapping_add(1);
        let rid = self.alloc_rid();
        let mut zip_path = prefixed_number("word/media/image", n);
        push_str(&mut zip_path, ".");
        push_str(&mut zip_path, ext);
        let rid2 = to_owned_string(rid.as_str());
        self.images.push(EmbeddedImage { rid: rid2, zip_path, bytes, ext: to_owned_string(ext) });
        rid
    }

    /// Register an external hyperlink and return its rId. A URL that is
    /// already registered keeps its first rId and adds nothing.
    pub fn add_external_link(&mut self, url: &str) -> (rid: String)
        ensures
            rid@ == link_rid(*old(self), url@),
            first_match(link_urls(old(self).hyperlinks@), url@) is Some ==> *final(self)
                == *old(self),
            first_match(link_urls(old(self).hyperlinks@), url@) is None ==> {
                &&& final(self).next_rid == succ(old(self).next_rid)
                &&& final(self).hyperlinks@.len() == old(self).hyperlinks@.len() + 1
                &&& forall|i: int|
                    0 <= i < old(self).hyperlinks@.len() ==> final(self).hyperlinks@[i]
                        == old(self).hyperlinks@[i]
                &&& final(self).hyperlinks@.last().rid@ == rid@
                &&& final(self).hyperlinks@.last().url@ == url@
                &&& final(self).next_drawing_id == old(self).next_drawing_id
                &&& final(self).next_bookmark_id == old(self).next_bookmark_id
                &&& final(self).next_footnote_id == old(self).next_footnote_id
                &&& final(self).table_caption_seq == old(self).table_caption_seq
                &&& final(self).figure_caption_seq == old(self).figure_caption_seq
                &&& final(self).images == old(self).images
                &&& final(self).footnotes == old(self).footnotes
                &&& final(self).heading_anchors == old(self).heading_anchors
                &&& final(self).captions == old(self).captions
                &&& fixed_parts_same(*final(self), *old(self))
            },
    {
        let mut i: usize = 0;
        while i < self.hyperlinks.len()
            invariant
                i <= self.hyperlinks@.len(),
                forall|j: int| 0 <= j < i ==> link_urls(self.hyperlinks@)[j] != url@,
            decreases self.hyperlinks@.len() - i,
        {
            if str_eq(self.hyperlinks[i].url.as_str(), url) {
                proof {
                    lemma_first_match_is(link_urls(self.hyperlinks@), url@, i as int);
                }
                return to_owned_string(self.hyperlinks[i].rid.as_str());
            }
            i = i + 1;
        }
        proof {
            lemma_first_match(link_urls(self.hyperlinks@), url@);
            match first_match(link_urls(self.hyperlinks@), url@) {
                Some(k) => {
                    assert(link_urls(self.hyperlinks@)[k] != url@);
                },
                None => {},
            }
        }
        let rid = self.alloc_rid();
        self.hyperlinks.push(
            HyperlinkRel { rid: to_owned_string(rid.as_str()), url: to_owned_string(url) },
        );
        rid
    }

    /// Register a footnote's text; returns its id.
    pub fn add_footnote(&mut self, text: String) -> (id: u32)
        ensures
            id == old(self).next_footnote_id,
            final(self).next_footnote_id == succ(old(self).next_footnote_id),
            final(self).footnotes@ == old(self).footnotes@.push(FootnoteEntry { id, text }),
            final(self).next_rid == old(self).next_rid,
            final(self).next_drawing_id == old(self).next_drawing_id,
            final(self).next_bookmark_id == old(self).next_bookmark_id,
            final(self).table_caption_seq == old(self).table_caption_seq,
            final(self).figure_caption_seq == old(self).figure_caption_seq,
            final(self).images == old(self).images,
            final(self).hyperlinks == old(self).hyperlinks,
            final(self).heading_anchors == old(self).heading_anchors,
            final(self).captions == old(self).captions,
            fixed_parts_same(*final(self), *old(self)),
    {
        let id = self.next_footnote_id;
        self.next_footnote_id = id.wrapping_add(1);
        self.footnotes.push(FootnoteEntry { id, text });
        id
    }
}

/// Two registrations of one URL give one relationship: the second call
/// answers the first call's rId and changes nothing.
pub proof fn lemma_link_dedupe(ctx: EmitCtx, url: Seq<char>)
    requires
        first_match(link_urls(ctx.hyperlinks@), url) is Some,
    ensures
        link_rid(ctx, url) == ctx.hyperlinks@[first_match(link_urls(ctx.hyperlinks@), url)->0].rid@,
{
}

/// Successive rIds differ: `rIdN` and `rIdM` are equal only when `N == M`.
pub proof fn lemma_rid_text_injective(n: u32, m: u32)
    requires
        n != m,
    ensures
        rid_text(n) != rid_text(m),
{
    crate::text::lemma_dec_injective(n as nat, m as nat);
    reveal_strlit("rId");
    if rid_text(n) == rid_text(m) {
        assert(rid_text(n).skip(3) =~= dec(n as nat));
        assert(rid_text(m).skip(3) =~= dec(m as nat));
    }
}

} // verus!
