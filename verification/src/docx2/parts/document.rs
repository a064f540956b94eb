//! `word/document.xml` — the body of the docx.
//!
//! Walks the cooked AST and emits the top-level blocks in order,
//! dispatching to the per-shape emitters in [`crate::docx2::emit`], then
//! the section properties of a letter page with 1" margins.

use vstd::prelude::*;

use crate::ast_v2::Document;
use crate::docx::parts::web_settings::ns_w;
use crate::docx::xml::{
    attr2, attr_views, element, element_ns, empty_tag, group_concat, no_attrs, ns_views, open_tag,
    xml_declaration, Ns, XmlBuf,
};
use crate::docx2::emit::ctx::EmitCtx;
use crate::docx2::emit::drawing::{ns_a, ns_pic, ns_wp};
use crate::docx2::emit::paragraph::{blocks_fit, blocks_out, render_blocks};
use crate::docx2::emit::state::{doc_frame, doc_state};

verus! {

broadcast use group_concat;

pub open spec fn ns_r() -> Seq<char> {
    "http://schemas.openxmlformats.org/officeDocument/2006/relationships"@
}

/// The namespaces the document root declares once, so that embedded
/// drawings need not re-declare them. Word ignores unused ones.
pub open spec fn body_namespaces() -> Seq<(Seq<char>, Seq<char>)> {
    seq![("w"@, ns_w()), ("r"@, ns_r()), ("wp"@, ns_wp()), ("a"@, ns_a()), ("pic"@, ns_pic())]
}

/// Page margins of a section, in dxa: top, right, bottom, left, header
/// offset, footer offset.
pub open spec fn pg_mar_attrs(
    top: Seq<char>,
    right: Seq<char>,
    bottom: Seq<char>,
    left: Seq<char>,
    header: Seq<char>,
    footer: Seq<char>,
) -> Seq<(Seq<char>, Seq<char>)> {
    seq![
        ("w:top"@, top),
        ("w:right"@, right),
        ("w:bottom"@, bottom),
        ("w:left"@, left),
        ("w:header"@, header),
        ("w:footer"@, footer),
        ("w:gutter"@, "0"@),
    ]
}

/// Letter paper with 1" margins and ½" header and footer offsets.
pub open spec fn letter_sect_pr() -> Seq<char> {
    element(
        "w:sectPr"@,
        no_attrs(),
        empty_tag("w:pgSz"@, attr2("w:w"@, "12240"@, "w:h"@, "15840"@)) + empty_tag(
            "w:pgMar"@,
            pg_mar_attrs("1440"@, "1440"@, "1440"@, "1440"@, "720"@, "720"@),
        ),
    )
}

/// A `w:document` part around a body's contents.
pub open spec fn document_xml(ns: Seq<(Seq<char>, Seq<char>)>, body: Seq<char>) -> Seq<char> {
    xml_declaration() + element_ns("w:document"@, ns, no_attrs(), element("w:body"@, no_attrs(), body))
}

/// Open the root with the namespaces the body needs.
pub(crate) fn open_document_root(x: &mut XmlBuf)
    ensures
        final(x)@ == old(x)@ + open_tag("w:document"@, body_namespaces(), no_attrs(), false),
{
    let nss = [
        Ns { prefix: "w", uri: "http://schemas.openxmlformats.org/wordprocessingml/2006/main" },
        Ns { prefix: "r", uri: "http://schemas.openxmlformats.org/officeDocument/2006/relationships" },
        Ns { prefix: "wp", uri: "http://schemas.openxmlformats.org/drawingml/2006/wordprocessingDrawing" },
        Ns { prefix: "a", uri: "http://schemas.openxmlformats.org/drawingml/2006/main" },
        Ns { prefix: "pic", uri: "http://schemas.openxmlformats.org/drawingml/2006/picture" },
    ];
    let a: &[(&str, &str)] = &[];
    proof {
        assert(ns_views(nss@) =~= body_namespaces());
        assert(attr_views(a@) =~= no_attrs());
    }
    x.open_with_ns("w:document", &nss, a);
}

fn render_sect_pr(x: &mut XmlBuf)
    ensures
        final(x)@ == old(x)@ + letter_sect_pr(),
{
    x.open0("w:sectPr");
    x.empty2("w:pgSz", "w:w", "12240", "w:h", "15840");
    let a: &[(&str, &str)] = &[
        ("w:top", "1440"),
        ("w:right", "1440"),
        ("w:bottom", "1440"),
        ("w:left", "1440"),
        ("w:header", "720"),
        ("w:footer", "720"),
        ("w:gutter", "0"),
    ];
    proof {
        assert(attr_views(a@) =~= pg_mar_attrs("1440"@, "1440"@, "1440"@, "1440"@, "720"@, "720"@));
    }
    x.empty("w:pgMar", a);
    x.close("w:sectPr");
}

/// Document body for the cooked AST. Walks the AST with the shared
/// [`EmitCtx`] so embedded images, hyperlinks, and the other side-state
/// needed by `document.xml.rels` accumulate during emission.
pub fn body(doc: &Document, ctx: &mut EmitCtx) -> (s: String)
    requires
        blocks_fit(doc.blocks@),
    ensures
        ({
            let (o, st) = blocks_out(
                doc.blocks@,
                doc.blocks@.len(),
                crate::docx2::emit::ctx::image_env(*old(ctx)),
                old(ctx).captions@,
                doc_state(*old(ctx)),
            );
            &&& s@ == document_xml(body_namespaces(), o + letter_sect_pr())
            &&& doc_state(*final(ctx)) == st
        }),
        doc_frame(*old(ctx), *final(ctx)),
{
    let mut x = XmlBuf::new();
    x.xml_decl();
    open_document_root(&mut x);
    x.open0("w:body");
    render_blocks(doc.blocks.as_slice(), ctx, &mut x);
    render_sect_pr(&mut x);
    x.close("w:body");
    x.close("w:document");
    x.finish()
}

/// The minimal body — a single empty paragraph and the section
/// properties: a known, fixed document.
pub fn minimal() -> (s: String)
    ensures
        s@ == document_xml(seq![("w"@, ns_w())], empty_tag("w:p"@, no_attrs()) + letter_sect_pr()),
{
    let mut x = XmlBuf::new();
    x.xml_decl();
    crate::docx::parts::endnotes::open_root_w("w:document", &mut x);
    x.open0("w:body");
    x.empty0("w:p");
    render_sect_pr(&mut x);
    x.close("w:body");
    x.close("w:document");
    x.finish()
}

} // verus!
