//! `word/headerN.xml` and `word/footerN.xml` parts.
//!
//! Each header/footer is a self-contained part that contains its own
//! paragraph content. `<w:sectPr>` in `document.xml` binds them to the
//! section via `<w:headerReference>` and `<w:footerReference>` elements
//! with rIds.

use vstd::prelude::*;

use crate::ast_v2::Block;
use crate::docx::xml::{element_ns, empty_tag, group_concat, no_attrs, xml_declaration, XmlBuf};
use crate::docx2::emit::ctx::EmitCtx;
use crate::docx2::emit::paragraph::{blocks_fit, blocks_out, render_blocks};
use crate::docx2::emit::state::{doc_frame, doc_state, DocState};
use crate::docx2::parts::document::body_namespaces;
use crate::docx::xml::{attr_views, ns_views, Ns};
use crate::text::chars_of;

verus! {

broadcast use group_concat;

/// A paragraph start tag (`<w:p>`, `<w:p ` or `<w:p/`) at position `i`.
pub open spec fn para_at(o: Seq<char>, i: int) -> bool {
    &&& 0 <= i
    &&& i + 5 <= o.len()
    &&& o[i] == '<'
    &&& o[i + 1] == 'w'
    &&& o[i + 2] == ':'
    &&& o[i + 3] == 'p'
    &&& (o[i + 4] == '>' || o[i + 4] == ' ' || o[i + 4] == '/')
}

/// Whether markup holds a paragraph.
pub open spec fn has_para(o: Seq<char>) -> bool {
    exists|i: int| #[trigger] para_at(o, i)
}

/// A header or footer part with root `root`: the blocks, followed by an
/// empty paragraph when they hold none (Word refuses a part without a
/// paragraph); with no blocks, just the empty paragraph.
pub open spec fn chrome_out(
    root: Seq<char>,
    blocks: Seq<Block>,
    srcs: crate::docx2::emit::ctx::ImageEnv,
    caps: Seq<crate::docx2::emit::ctx::CaptionAnchor>,
    s: DocState,
) -> (Seq<char>, DocState) {
    let (o, s2) = if blocks.len() == 0 {
        (empty_tag("w:p"@, no_attrs()), s)
    } else {
        let (b, s2) = blocks_out(blocks, blocks.len(), srcs, caps, s);
        (
            if has_para(b) {
                b
            } else {
                b + empty_tag("w:p"@, no_attrs())
            },
            s2,
        )
    };
    (xml_declaration() + element_ns(root, body_namespaces(), no_attrs(), o), s2)
}

/// Whether `s` holds a paragraph start tag.
fn contains_paragraph(s: &str) -> (r: bool)
    ensures
        r == has_para(s@),
{
    let cs = chars_of(s);
    let n = cs.len();
    let mut i: usize = 0;
    while n >= 5 && i <= n - 5
        invariant
            i <= n,
            cs@ == s@,
            n == cs@.len(),
            forall|j: int| 0 <= j < i ==> !#[trigger] para_at(s@, j),
        decreases n - i,
    {
        if cs[i] == '<' && cs[i + 1] == 'w' && cs[i + 2] == ':' && cs[i + 3] == 'p' && (cs[i + 4] == '>'
            || cs[i + 4] == ' ' || cs[i + 4] == '/') {
            proof {
                assert(para_at(s@, i as int));
            }
            return true;
        }
        i = i + 1;
    }
    proof {
        assert forall|j: int| !#[trigger] para_at(s@, j) by {
            if 0 <= j < i {
            }
        }
    }
    false
}

fn open_chrome_root(root: &str, x: &mut XmlBuf)
    ensures
        final(x)@ == old(x)@ + crate::docx::xml::open_tag(root@, body_namespaces(), no_attrs(), false),
{
    let nss = [
        Ns { prefix: "w", uri: "http://schemas.openxmlformats.org/wordprocessingml/2006/main" },
        Ns { prefix: "r", uri: "http://schemas.openxmlformats.org/officeDocument/2006/relationships" },
        Ns { prefix: "wp", uri: "http://schemas.openxmlformats.org/drawingml/2006/wordprocessingDrawing" },
        Ns { prefix: "a", uri: "http://schemas.openxmlformats.org/drawingml/2006/main" },
        Ns { prefix: "pic", uri: "http://schemas.openxmlformats.org/drawingml/2006/picture" },
    ];
    let a: &[(&str, &str)] = &[];
    proof {
        assert(ns_views(nss@) =~= body_namespaces());
        assert(attr_views(a@) =~= no_attrs());
    }
    x.open_with_ns(root, &nss, a);
}

fn build(root: &str, blocks: &[Block], ctx: &mut EmitCtx) -> (s: String)
    requires
        blocks_fit(blocks@),
    ensures
        ({
            let (o, st) = chrome_out(
                root@,
                blocks@,
                crate::docx2::emit::ctx::image_env(*old(ctx)),
                old(ctx).captions@,
                doc_state(*old(ctx)),
            );
            &&& s@ == o
            &&& doc_state(*final(ctx)) == st
        }),
        doc_frame(*old(ctx), *final(ctx)),
{
    let mut x = XmlBuf::new();
    x.xml_decl();
    open_chrome_root(root, &mut x);
    if blocks.len() == 0 {
        // A header/footer part must contain at least one paragraph;
        // Word will refuse to open an empty one.
        x.empty0("w:p");
    } else {
        let mut inner = XmlBuf::new();
        render_blocks(blocks, ctx, &mut inner);
        let body = inner.finish();
        x.raw(body.as_str());
        if !contains_paragraph(body.as_str()) {
            // Blocks that render nothing leave the part without a
            // paragraph: add the one Word requires.
            x.empty0("w:p");
        }
    }
    x.close(root);
    x.finish()
}

/// Build a `word/headerN.xml` body. `blocks` are the children of the
/// source `header{...}` block (or empty for a blank header).
pub fn header(blocks: &[Block], ctx: &mut EmitCtx) -> (s: String)
    requires
        blocks_fit(blocks@),
    ensures
        ({
            let (o, st) = chrome_out(
                "w:hdr"@,
                blocks@,
                crate::docx2::emit::ctx::image_env(*old(ctx)),
                old(ctx).captions@,
                doc_state(*old(ctx)),
            );
            &&& s@ == o
            &&& doc_state(*final(ctx)) == st
        }),
        doc_frame(*old(ctx), *final(ctx)),
{
    build("w:hdr", blocks, ctx)
}

/// Build a `word/footerN.xml` body.
pub fn footer(blocks: &[Block], ctx: &mut EmitCtx) -> (s: String)
    requires
        blocks_fit(blocks@),
    ensures
        ({
            let (o, st) = chrome_out(
                "w:ftr"@,
                blocks@,
                crate::docx2::emit::ctx::image_env(*old(ctx)),
                old(ctx).captions@,
                doc_state(*old(ctx)),
            );
            &&& s@ == o
            &&& doc_state(*final(ctx)) == st
        }),
        doc_frame(*old(ctx), *final(ctx)),
{
    build("w:ftr", blocks, ctx)
}

} // verus!
