//! OOXML parts. Each submodule emits one part (or family of parts)
//! as a `String` ready to be added to the ZIP package; this module
//! assembles them into the package.

use vstd::prelude::*;
use vstd::string::StrSliceExecFns;

use crate::ast_v2::Document;
use crate::docx::package::{entries_fit, zip_archive, Package, Part};
use crate::docx::parts::doc_props::{app, app_xml, core_props, core_xml, now_w3cdtf, w3cdtf_of};
use crate::docx::parts::web_settings::ns_w;
use crate::docx::xml::{empty_tag, no_attrs};
use crate::docx::parts::settings::{settings, settings_xml};
use crate::docx::parts::styles::{styles, styles_xml};
use crate::docx::parts::web_settings::{web_settings, web_settings_xml};
use crate::docx::DocxError;
use crate::docx2::emit::ctx::{EmbeddedImage, EmitCtx, ImageEnv, ImageSource};
use crate::docx2::emit::paragraph::{blocks_fit, blocks_out};
use crate::docx2::emit::prepass::heading_views;
use crate::docx2::emit::run::{link_pairs, note_pairs, RunState};
use crate::docx2::emit::state::{doc_state, image_views, DocState, ImageView};
use crate::text::{
    after_prefix, lemma_seq_lt_irreflexive, lemma_seq_lt_total, lemma_seq_lt_transitive, seq_lt,
    str_eq, str_lt, strictly_sorted, strip_prefix, to_owned_string, views_of,
};

use super::DocxV2Error;

pub mod content_types;
pub mod document;
pub mod font_table;
pub mod footnotes;
pub mod numbering;
pub mod rels;
pub mod theme;

use content_types::{builder, content_types_xml, standard_defaults};
use font_table::{font_table, font_table_xml};
use numbering::{numbering, numbering_xml};
use rels::{internal, kind, rel_views, rels_xml, root_with_metadata, root_with_metadata_rels, Rel, RelView};
use theme::{theme1, theme1_xml};
use document::{body_namespaces, document_xml, letter_sect_pr};

verus! {

/// rId space layout for `document.xml.rels`: rIds 1..=6 are the static
/// parts (styles, numbering, theme, settings, webSettings, fontTable).
/// Body emission allocates from `STATIC_RID_COUNT + 1` onward for
/// images, hyperlinks, footnotes, headers, footers.
pub const STATIC_RID_COUNT: u32 = 6;

pub const CT_STYLES: &'static str = "application/vnd.openxmlformats-officedocument.wordprocessingml.styles+xml";
pub const CT_NUMBERING: &'static str = "application/vnd.openxmlformats-officedocument.wordprocessingml.numbering+xml";
pub const CT_SETTINGS: &'static str = "application/vnd.openxmlformats-officedocument.wordprocessingml.settings+xml";
pub const CT_WEB_SETTINGS: &'static str = "application/vnd.openxmlformats-officedocument.wordprocessingml.webSettings+xml";
pub const CT_FONT_TABLE: &'static str = "application/vnd.openxmlformats-officedocument.wordprocessingml.fontTable+xml";
pub const CT_FOOTNOTES: &'static str = "application/vnd.openxmlformats-officedocument.wordprocessingml.footnotes+xml";
pub const CT_ENDNOTES: &'static str = "application/vnd.openxmlformats-officedocument.wordprocessingml.endnotes+xml";
pub const CT_HEADER: &'static str = "application/vnd.openxmlformats-officedocument.wordprocessingml.header+xml";
pub const CT_FOOTER: &'static str = "application/vnd.openxmlformats-officedocument.wordprocessingml.footer+xml";
pub const CT_THEME: &'static str = "application/vnd.openxmlformats-officedocument.theme+xml";
pub const CT_DOC_MAIN: &'static str = "application/vnd.openxmlformats-officedocument.wordprocessingml.document.main+xml";
pub const CT_CORE: &'static str = "application/vnd.openxmlformats-package.core-properties+xml";
pub const CT_EXTENDED: &'static str = "application/vnd.openxmlformats-officedocument.extended-properties+xml";

/// The MIME type Word decodes an image extension with.
pub open spec fn image_content_type_of(ext: Seq<char>) -> Seq<char> {
    if ext == "png"@ {
        "image/png"@
    } else if ext == "jpeg"@ {
        "image/jpeg"@
    } else if ext == "gif"@ {
        "image/gif"@
    } else if ext == "bmp"@ {
        "image/bmp"@
    } else if ext == "tiff"@ {
        "image/tiff"@
    } else {
        "application/octet-stream"@
    }
}

fn image_content_type(ext: &str) -> (r: &'static str)
    ensures
        r@ == image_content_type_of(ext@),
{
    proof {
        reveal_strlit("png");
        reveal_strlit("jpeg");
        reveal_strlit("gif");
        reveal_strlit("bmp");
        reveal_strlit("tiff");
    }
    if str_eq(ext, "png") {
        "image/png"
    } else if str_eq(ext, "jpeg") {
        "image/jpeg"
    } else if str_eq(ext, "gif") {
        "image/gif"
    } else if str_eq(ext, "bmp") {
        "image/bmp"
    } else if str_eq(ext, "tiff") {
        "image/tiff"
    } else {
        "application/octet-stream"
    }
}

/// The extensions of a list of images, each once, in ascending order.
pub open spec fn is_ext_list(r: Seq<Seq<char>>, images: Seq<ImageView>) -> bool {
    &&& strictly_sorted(r)
    &&& forall|e: Seq<char>| r.contains(e) <==> exists|i: int| 0 <= i < images.len() && images[i].ext == e
}

/// Insert `e` into a sorted list of distinct extensions.
fn insert_ext(v: &mut Vec<String>, e: &str)
    requires
        strictly_sorted(views_of(old(v)@)),
    ensures
        strictly_sorted(views_of(final(v)@)),
        forall|x: Seq<char>| views_of(final(v)@).contains(x) <==> (views_of(old(v)@).contains(x) || x == e@),
{
    let ghost o = views_of(v@);
    let mut j: usize = 0;
    while j < v.len() && str_lt(v[j].as_str(), e)
        invariant
            j <= v@.len(),
            o == views_of(v@),
            forall|k: int| 0 <= k < j ==> seq_lt(#[trigger] o[k], e@),
        decreases v@.len() - j,
    {
        j = j + 1;
    }
    if j < v.len() && str_eq(v[j].as_str(), e) {
        proof {
            assert(o[j as int] == e@);
            assert forall|x: Seq<char>| o.contains(x) <==> (o.contains(x) || x == e@) by {
                if x == e@ {
                    assert(o[j as int] == x);
                }
            }
        }
        return;
    }
    proof {
        if j < o.len() {
            assert(!seq_lt(o[j as int], e@));
            assert(o[j as int] != e@);
            lemma_seq_lt_total(o[j as int], e@);
        }
    }
    v.insert(j, to_owned_string(e));
    let ghost n = views_of(v@);
    proof {
        assert(n =~= o.insert(j as int, e@));
        assert forall|p: int, q: int| 0 <= p < q < n.len() implies seq_lt(#[trigger] n[p], #[trigger] n[q]) by {
            if q < j {
                assert(n[p] == o[p] && n[q] == o[q]);
            } else if q == j {
                assert(n[p] == o[p]);
            } else if p == j {
                assert(n[q] == o[q - 1]);
                if q - 1 > j {
                    lemma_seq_lt_transitive(e@, o[j as int], o[q - 1]);
                }
            } else if p < j {
                assert(n[p] == o[p] && n[q] == o[q - 1]);
                if q - 1 == j as int {
                } else {
                    assert(seq_lt(o[p], o[q - 1]));
                }
            } else {
                assert(n[p] == o[p - 1] && n[q] == o[q - 1]);
            }
        }
        assert forall|x: Seq<char>| n.contains(x) <==> (o.contains(x) || x == e@) by {
            if n.contains(x) {
                let k = choose|k: int| 0 <= k < n.len() && n[k] == x;
                if k < j {
                    assert(o[k] == x);
                } else if k > j {
                    assert(o[k - 1] == x);
                }
            }
            if o.contains(x) {
                let k = choose|k: int| 0 <= k < o.len() && o[k] == x;
                if k < j {
                    assert(n[k] == x);
                } else {
                    assert(n[k + 1] == x);
                }
            }
            if x == e@ {
                assert(n[j as int] == x);
            }
        }
    }
}

/// The extensions of the images, each once, sorted ascending — one
/// `<Default>` content type is registered per extension actually used.
fn image_exts(images: &Vec<EmbeddedImage>) -> (r: Vec<String>)
    ensures
        is_ext_list(views_of(r@), image_views(images@)),
{
    let ghost iv = image_views(images@);
    let mut out: Vec<String> = Vec::new();
    let mut i: usize = 0;
    proof {
        assert(views_of(out@) =~= Seq::<Seq<char>>::empty());
    }
    while i < images.len()
        invariant
            i <= images@.len(),
            iv == image_views(images@),
            strictly_sorted(views_of(out@)),
            forall|e: Seq<char>|
                views_of(out@).contains(e) <==> exists|k: int| 0 <= k < i && iv[k].ext == e,
        decreases images@.len() - i,
    {
        insert_ext(&mut out, images[i].ext.as_str());
        proof {
            assert(iv[i as int].ext == images@[i as int].ext@);
            assert forall|e: Seq<char>|
                views_of(out@).contains(e) <==> exists|k: int| 0 <= k < i + 1 && iv[k].ext == e by {
                if e == iv[i as int].ext {
                    assert(0 <= i < i + 1 && iv[i as int].ext == e);
                }
                if exists|k: int| 0 <= k < i + 1 && iv[k].ext == e {
                    let k = choose|k: int| 0 <= k < i + 1 && iv[k].ext == e;
                    if k < i {
                        assert(exists|k2: int| 0 <= k2 < i && iv[k2].ext == e);
                    }
                }
            }
        }
        i = i + 1;
    }
    out
}

// ------------------------------------------------------------------
// The package
// ------------------------------------------------------------------

/// The overrides of the static parts.
pub open spec fn static_overrides() -> Seq<(Seq<char>, Seq<char>)> {
    seq![
        ("/word/document.xml"@, CT_DOC_MAIN@),
        ("/word/styles.xml"@, CT_STYLES@),
        ("/word/numbering.xml"@, CT_NUMBERING@),
        ("/word/theme/theme1.xml"@, CT_THEME@),
        ("/word/settings.xml"@, CT_SETTINGS@),
        ("/word/webSettings.xml"@, CT_WEB_SETTINGS@),
        ("/word/fontTable.xml"@, CT_FONT_TABLE@),
        ("/docProps/core.xml"@, CT_CORE@),
        ("/docProps/app.xml"@, CT_EXTENDED@),
    ]
}

/// One `<Default>` per image extension.
pub open spec fn image_defaults(exts: Seq<Seq<char>>) -> Seq<(Seq<char>, Seq<char>)> {
    exts.map_values(|e: Seq<char>| (e, image_content_type_of(e)))
}

/// The relationships of the static parts, `rId1` to `rId6`.
pub open spec fn static_rels() -> Seq<RelView> {
    seq![
        internal("rId1"@, kind::STYLES@, "styles.xml"@),
        internal("rId2"@, kind::NUMBERING@, "numbering.xml"@),
        internal("rId3"@, kind::THEME@, "theme/theme1.xml"@),
        internal("rId4"@, kind::SETTINGS@, "settings.xml"@),
        internal("rId5"@, kind::WEB_SETTINGS@, "webSettings.xml"@),
        internal("rId6"@, kind::FONT_TABLE@, "fontTable.xml"@),
    ]
}

/// An image's relationship: its target is its path relative to `word/`,
/// where `document.xml.rels` is interpreted.
pub open spec fn image_rel(i: ImageView) -> RelView {
    internal(
        i.rid,
        kind::IMAGE@,
        match after_prefix(i.zip_path, "word/"@) {
            Some(t) => t,
            None => i.zip_path,
        },
    )
}

pub open spec fn utf8(s: Seq<char>) -> Seq<u8> {
    vstd::utf8::encode_utf8(s)
}

/// The package's directory parts: content types and the two
/// relationship parts.
#[verifier::opaque]
pub open spec fn directory_entries(images: Seq<ImageView>, exts: Seq<Seq<char>>) -> Seq<(Seq<char>, Seq<u8>)> {
    seq![
        (
            "[Content_Types].xml"@,
            utf8(content_types_xml(standard_defaults() + image_defaults(exts), static_overrides())),
        ),
        ("_rels/.rels"@, utf8(rels_xml(root_with_metadata_rels()))),
        (
            "word/_rels/document.xml.rels"@,
            utf8(rels_xml(static_rels() + images.map_values(|i: ImageView| image_rel(i)))),
        ),
    ]
}

/// The document and the parts that shape it: styles, numbering, theme.
#[verifier::opaque]
pub open spec fn content_entries(document_xml: Seq<char>) -> Seq<(Seq<char>, Seq<u8>)> {
    seq![
        ("word/document.xml"@, utf8(document_xml)),
        ("word/styles.xml"@, utf8(styles_xml(Seq::empty()))),
        ("word/numbering.xml"@, utf8(numbering_xml())),
        ("word/theme/theme1.xml"@, utf8(theme1_xml())),
    ]
}

/// The settings parts and the document properties.
#[verifier::opaque]
pub open spec fn settings_entries(created: Seq<char>) -> Seq<(Seq<char>, Seq<u8>)> {
    seq![
        ("word/settings.xml"@, utf8(settings_xml(false))),
        ("word/webSettings.xml"@, utf8(web_settings_xml())),
        ("word/fontTable.xml"@, utf8(font_table_xml())),
        ("docProps/core.xml"@, utf8(core_xml(created))),
        ("docProps/app.xml"@, utf8(app_xml())),
    ]
}

/// The text parts at the head of the package, in order.
pub open spec fn head_entries(
    document_xml: Seq<char>,
    images: Seq<ImageView>,
    exts: Seq<Seq<char>>,
    created: Seq<char>,
) -> Seq<(Seq<char>, Seq<u8>)> {
    directory_entries(images, exts) + content_entries(document_xml) + settings_entries(created)
}

/// The package's entries, in order: the text parts, then the image
/// bytes at their paths.
pub open spec fn package_entries(
    document_xml: Seq<char>,
    images: Seq<ImageView>,
    exts: Seq<Seq<char>>,
    created: Seq<char>,
) -> Seq<(Seq<char>, Seq<u8>)> {
    head_entries(document_xml, images, exts, created) + images.map_values(
        |i: ImageView| (i.zip_path, i.bytes),
    )
}

fn content_types_for(exts: &Vec<String>) -> (s: String)
    ensures
        s@ == content_types_xml(standard_defaults() + image_defaults(views_of(exts@)), static_overrides()),
{
    let mut b = builder();
    let mut i: usize = 0;
    while i < exts.len()
        invariant
            i <= exts@.len(),
            b@ == (standard_defaults() + image_defaults(views_of(exts@).take(i as int)), Seq::<(Seq<char>, Seq<char>)>::empty()),
        decreases exts@.len() - i,
    {
        // Register a Default content type per image extension actually
        // used so Word knows how to decode the bytes.
        let e = exts[i].as_str();
        b = b.default_extension(e, image_content_type(e));
        proof {
            assert(standard_defaults() + image_defaults(views_of(exts@).take(i + 1)) =~= (standard_defaults()
                + image_defaults(views_of(exts@).take(i as int))).push((e@, image_content_type_of(e@))));
        }
        i = i + 1;
    }
    proof {
        assert(views_of(exts@).take(i as int) =~= views_of(exts@));
    }
    let b = b.override_part("/word/document.xml", CT_DOC_MAIN).override_part(
        "/word/styles.xml",
        CT_STYLES,
    ).override_part("/word/numbering.xml", CT_NUMBERING).override_part(
        "/word/theme/theme1.xml",
        CT_THEME,
    ).override_part("/word/settings.xml", CT_SETTINGS).override_part(
        "/word/webSettings.xml",
        CT_WEB_SETTINGS,
    ).override_part("/word/fontTable.xml", CT_FONT_TABLE).override_part(
        "/docProps/core.xml",
        CT_CORE,
    ).override_part("/docProps/app.xml", CT_EXTENDED);
    proof {
        assert(b@.1 =~= static_overrides());
    }
    b.finish()
}

fn document_rels(images: &Vec<EmbeddedImage>) -> (s: String)
    ensures
        s@ == rels_xml(static_rels() + image_views(images@).map_values(|i: ImageView| image_rel(i))),
{
    // Static-part rels — rIds 1..6 are reserved per STATIC_RID_COUNT.
    let mut doc_rels: Vec<Rel> = Vec::new();
    doc_rels.push(Rel::new("rId1", kind::STYLES, "styles.xml"));
    doc_rels.push(Rel::new("rId2", kind::NUMBERING, "numbering.xml"));
    doc_rels.push(Rel::new("rId3", kind::THEME, "theme/theme1.xml"));
    doc_rels.push(Rel::new("rId4", kind::SETTINGS, "settings.xml"));
    doc_rels.push(Rel::new("rId5", kind::WEB_SETTINGS, "webSettings.xml"));
    doc_rels.push(Rel::new("rId6", kind::FONT_TABLE, "fontTable.xml"));
    let ghost iv = image_views(images@);
    proof {
        assert(rel_views(doc_rels@) =~= static_rels());
        assert(static_rels() + iv.take(0).map_values(|i: ImageView| image_rel(i)) =~= static_rels());
    }
    let mut k: usize = 0;
    while k < images.len()
        invariant
            k <= images@.len(),
            iv == image_views(images@),
            rel_views(doc_rels@) == static_rels() + iv.take(k as int).map_values(|i: ImageView| image_rel(i)),
        decreases images@.len() - k,
    {
        let img = &images[k];
        // Target is the path relative to `word/`, which is where
        // `document.xml.rels` is interpreted.
        let target = match strip_prefix(img.zip_path.as_str(), "word/") {
            Some(t) => t,
            None => to_owned_string(img.zip_path.as_str()),
        };
        let ghost before = doc_rels@;
        doc_rels.push(Rel::new(img.rid.as_str(), kind::IMAGE, target.as_str()));
        proof {
            assert(iv[k as int] == (ImageView { rid: img.rid@, zip_path: img.zip_path@, bytes: img.bytes@, ext: img.ext@ }));
            assert(rel_views(doc_rels@) =~= rel_views(before).push(image_rel(iv[k as int])));
            assert(iv.take(k + 1).map_values(|i: ImageView| image_rel(i)) =~= iv.take(k as int).map_values(
                |i: ImageView| image_rel(i),
            ).push(image_rel(iv[k as int])));
        }
        k = k + 1;
    }
    proof {
        assert(iv.take(k as int) =~= iv);
    }
    rels::build(doc_rels.as_slice())
}

fn add_directory(pkg: &mut Package, images: &Vec<EmbeddedImage>, exts: &Vec<String>)
    ensures
        final(pkg)@ == old(pkg)@ + directory_entries(image_views(images@), views_of(exts@)),
{
    let content_types = content_types_for(exts);
    let root_rels = root_with_metadata();
    let doc_rels_xml = document_rels(images);
    pkg.add_text("[Content_Types].xml", content_types.as_str());
    pkg.add_text("_rels/.rels", root_rels.as_str());
    pkg.add_text("word/_rels/document.xml.rels", doc_rels_xml.as_str());
    proof {
        reveal(directory_entries);
        assert(final(pkg)@ =~= old(pkg)@ + directory_entries(image_views(images@), views_of(exts@)));
    }
}

fn add_content(pkg: &mut Package, document_body_xml: &str)
    ensures
        final(pkg)@ == old(pkg)@ + content_entries(document_body_xml@),
{
    let styles_s = styles();
    let numbering_s = numbering();
    let theme_s = theme1();
    pkg.add_text("word/document.xml", document_body_xml);
    pkg.add_text("word/styles.xml", styles_s.as_str());
    pkg.add_text("word/numbering.xml", numbering_s.as_str());
    pkg.add_text("word/theme/theme1.xml", theme_s.as_str());
    proof {
        reveal(content_entries);
        assert(final(pkg)@ =~= old(pkg)@ + content_entries(document_body_xml@));
    }
}

fn add_settings(pkg: &mut Package, created: &str)
    ensures
        final(pkg)@ == old(pkg)@ + settings_entries(created@),
{
    let settings_s = settings();
    let web_s = web_settings();
    let fonts_s = font_table();
    let core_s = core_props(created);
    let app_s = app();
    pkg.add_text("word/settings.xml", settings_s.as_str());
    pkg.add_text("word/webSettings.xml", web_s.as_str());
    pkg.add_text("word/fontTable.xml", fonts_s.as_str());
    pkg.add_text("docProps/core.xml", core_s.as_str());
    pkg.add_text("docProps/app.xml", app_s.as_str());
    proof {
        reveal(settings_entries);
        assert(final(pkg)@ =~= old(pkg)@ + settings_entries(created@));
    }
}

/// A package holding the head parts.
fn head_package(document_body_xml: &str, images: &Vec<EmbeddedImage>, exts: &Vec<String>, created: &str) -> (pkg:
    Package)
    ensures
        pkg@ == head_entries(document_body_xml@, image_views(images@), views_of(exts@), created@),
{
    let mut pkg = Package::new();
    add_directory(&mut pkg, images, exts);
    add_content(&mut pkg, document_body_xml);
    add_settings(&mut pkg, created);
    proof {
        assert(pkg@ =~= head_entries(document_body_xml@, image_views(images@), views_of(exts@), created@));
    }
    pkg
}

/// Every part of the package, in order, for a document body, the
/// registered images and the creation time `created` (W3CDTF).
fn package_parts(document_body_xml: &str, images: &Vec<EmbeddedImage>, created: &str) -> (pkg: Package)
    ensures
        exists|exts: Seq<Seq<char>>|
            is_ext_list(exts, image_views(images@)) && pkg@ == package_entries(
                document_body_xml@,
                image_views(images@),
                exts,
                created@,
            ),
{
    let exts = image_exts(images);
    let mut pkg = head_package(document_body_xml, images, &exts, created);
    let ghost iv = image_views(images@);
    let ghost head = pkg@;
    let mut k: usize = 0;
    proof {
        assert(iv.take(0).map_values(|i: ImageView| (i.zip_path, i.bytes)) =~= Seq::<(Seq<char>, Seq<u8>)>::empty());
        assert(head + iv.take(0).map_values(|i: ImageView| (i.zip_path, i.bytes)) =~= head);
    }
    while k < images.len()
        invariant
            k <= images@.len(),
            iv == image_views(images@),
            pkg@ == head + iv.take(k as int).map_values(|i: ImageView| (i.zip_path, i.bytes)),
        decreases images@.len() - k,
    {
        let img = &images[k];
        let bytes = crate::docx2::emit::drawing::copy_bytes(&img.bytes);
        pkg.add_bytes(img.zip_path.as_str(), bytes);
        proof {
            assert(iv[k as int].zip_path == img.zip_path@ && iv[k as int].bytes == img.bytes@);
            assert(iv.take(k + 1).map_values(|i: ImageView| (i.zip_path, i.bytes)) =~= iv.take(k as int).map_values(
                |i: ImageView| (i.zip_path, i.bytes),
            ).push((iv[k as int].zip_path, iv[k as int].bytes)));
        }
        k = k + 1;
    }
    proof {
        assert(iv.take(k as int) =~= iv);
        assert(pkg@ =~= package_entries(document_body_xml@, iv, views_of(exts@), created@));
    }
    pkg
}

/// The `.docx` archives of a document body and its registered images:
/// the package's parts in order, stamped with some creation time.
pub open spec fn is_docx_archive(b: Seq<u8>, document_xml: Seq<char>, images: Seq<ImageView>) -> bool {
    exists|secs: u64, exts: Seq<Seq<char>>|
        is_ext_list(exts, images) && b == #[trigger] zip_archive(
            package_entries(document_xml, images, exts, w3cdtf_of((secs as i64) as int)),
        )
}

/// Whether packaging a document body and its images can fail: only when,
/// at some creation time, a part reaches the ZIP writer's 4 GiB entry
/// limit.
pub open spec fn docx_too_large(document_xml: Seq<char>, images: Seq<ImageView>) -> bool {
    exists|secs: u64, exts: Seq<Seq<char>>|
        is_ext_list(exts, images) && !entries_fit(
            #[trigger] package_entries(document_xml, images, exts, w3cdtf_of((secs as i64) as int)),
        )
}

/// Package a document body with the static parts and the registered
/// images, stamped with the current time.
fn pack(document_body_xml: String, ctx: &EmitCtx) -> (r: Result<Vec<u8>, DocxV2Error>)
    ensures
        r matches Ok(b) ==> is_docx_archive(b@, document_body_xml@, image_views(ctx.images@)),
        r is Err ==> docx_too_large(document_body_xml@, image_views(ctx.images@)),
        r matches Err(e) ==> e is Pack,
{
    let created = now_w3cdtf();
    let pkg = package_parts(document_body_xml.as_str(), &ctx.images, created.as_str());
    let ghost entries = pkg@;
    let ghost secs = choose|secs: u64| created@ == #[trigger] w3cdtf_of((secs as i64) as int);
    let ghost exts = choose|exts: Seq<Seq<char>>|
        is_ext_list(exts, image_views(ctx.images@)) && entries == package_entries(
            document_body_xml@,
            image_views(ctx.images@),
            exts,
            created@,
        );
    proof {
        if !entries_fit(entries) {
            assert(!entries_fit(
                package_entries(document_body_xml@, image_views(ctx.images@), exts, w3cdtf_of((secs as i64) as int)),
            ));
        }
    }
    match pkg.finish() {
        Ok(bytes) => {
            proof {
                assert(bytes@ == zip_archive(
                    package_entries(document_body_xml@, image_views(ctx.images@), exts, w3cdtf_of((secs as i64) as int)),
                ));
            }
            Ok(bytes)
        },
        Err(DocxError::Pack(m)) => Err(DocxV2Error::Pack(m)),
        Err(DocxError::ImageRead { path, source }) => Err(DocxV2Error::ImageRead { path, source }),
    }
}

/// The emission state of a fresh context: relationship ids after the
/// static parts, every counter at its start, nothing registered.
pub open spec fn start_state() -> DocState {
    DocState {
        run: RunState { next_rid: (STATIC_RID_COUNT + 1) as u32, links: Seq::empty(), next_note: 1, notes: Seq::empty() },
        images: Seq::empty(),
        headings: Seq::empty(),
        next_bookmark: 1,
        next_drawing: 1,
        table_seq: 0,
        figure_seq: 0,
    }
}

/// The images of a document: relative paths resolve against `base`.
pub open spec fn env_of(base: Option<&str>, srcs: Seq<ImageSource>) -> ImageEnv {
    ImageEnv {
        base: match base {
            Some(s) => Some(s@),
            None => None,
        },
        srcs,
    }
}

/// The `document.xml` of a document and the images its body registers,
/// `srcs` being the image files as read.
pub open spec fn document_of(doc: Document, srcs: ImageEnv) -> (Seq<char>, Seq<ImageView>) {
    let (o, st) = blocks_out(doc.blocks@, doc.blocks@.len(), srcs, Seq::empty(), start_state());
    (document_xml(body_namespaces(), o + letter_sect_pr()), st.images)
}

/// Build the full `.docx` package for a cooked AST.
///
/// All static parts (theme, settings, webSettings, fontTable, styles,
/// numbering, docProps) are present; the document body is emitted from
/// `doc.blocks` via the paragraph dispatcher. `image_sources` are the
/// image files the body's `image[src:...]` blocks refer to, as read
/// (relative paths resolved against `image_base`).
pub fn package_doc(doc: &Document, image_base: Option<&str>, image_sources: Vec<ImageSource>) -> (r: Result<
    Vec<u8>,
    DocxV2Error,
>)
    requires
        blocks_fit(doc.blocks@),
    ensures
        r matches Ok(b) ==> is_docx_archive(
            b@,
            document_of(*doc, env_of(image_base, image_sources@)).0,
            document_of(*doc, env_of(image_base, image_sources@)).1,
        ),
        r is Err ==> docx_too_large(
            document_of(*doc, env_of(image_base, image_sources@)).0,
            document_of(*doc, env_of(image_base, image_sources@)).1,
        ),
        r matches Err(e) ==> e is Pack,
{
    let mut ctx = EmitCtx::new(image_base, STATIC_RID_COUNT + 1);
    ctx.image_sources = image_sources;
    proof {
        assert(link_pairs(ctx.hyperlinks@) =~= Seq::empty());
        assert(note_pairs(ctx.footnotes@) =~= Seq::empty());
        assert(image_views(ctx.images@) =~= Seq::empty());
        assert(heading_views(ctx.heading_anchors@) =~= Seq::empty());
        assert(ctx.captions@ =~= Seq::empty());
        assert(doc_state(ctx) == start_state());
    }
    let body_xml = document::body(doc, &mut ctx);
    pack(body_xml, &ctx)
}

/// The `document.xml` of the minimal document: one empty paragraph.
pub open spec fn minimal_document_xml() -> Seq<char> {
    document_xml(seq![("w"@, ns_w())], empty_tag("w:p"@, no_attrs()) + letter_sect_pr())
}

/// A docx with a single empty paragraph: a deterministic minimum.
pub fn minimal_empty_doc() -> (r: Result<Vec<u8>, DocxV2Error>)
    ensures
        r matches Ok(b) ==> is_docx_archive(b@, minimal_document_xml(), Seq::empty()),
        r is Err ==> docx_too_large(minimal_document_xml(), Seq::empty()),
        r matches Err(e) ==> e is Pack,
{
    let ctx = EmitCtx::new(None, STATIC_RID_COUNT + 1);
    proof {
        assert(image_views(ctx.images@) =~= Seq::<ImageView>::empty());
    }
    pack(document::minimal(), &ctx)
}

} // verus!
