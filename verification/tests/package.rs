use std::io::{Cursor, Read};

use stem::ast_v2::{Block, Body, Document, Metadata, Property, PropertyValue, TextPiece};
use stem::docx::package::{pack, Package, Part};
use stem::docx2::emit::ctx::ImageSource;
use stem::docx2::parts::{minimal_empty_doc, package_doc};
use stem::span::{Pos, Span};

fn unzip(bytes: &[u8]) -> Vec<(String, Vec<u8>)> {
    let mut archive = zip::ZipArchive::new(Cursor::new(bytes)).unwrap();
    let mut out = Vec::new();
    for i in 0..archive.len() {
        let mut e = archive.by_index(i).unwrap();
        let name = e.name().to_string();
        let mut data = Vec::new();
        e.read_to_end(&mut data).unwrap();
        out.push((name, data));
    }
    out
}

fn sp() -> Span {
    Span::new(Pos::new(0, 1, 1), Pos::new(0, 1, 1))
}

#[test]
fn package_writes_parts_in_insertion_order() {
    let mut pkg = Package::new();
    pkg.add_text("a.xml", "<a/>");
    pkg.add_text("b.xml", "<b/>");
    pkg.add_bytes("c.bin", vec![0u8, 1, 2]);
    let bytes = pkg.finish().ok().unwrap();
    let entries = unzip(&bytes);
    assert_eq!(entries.len(), 3);
    assert_eq!(entries[0].0, "a.xml");
    assert_eq!(entries[1].0, "b.xml");
    assert_eq!(entries[2].0, "c.bin");
    assert_eq!(entries[0].1, b"<a/>");
    assert_eq!(entries[2].1, vec![0u8, 1, 2]);
}

#[test]
fn one_shot_pack_round_trips() {
    let parts = vec![Part::text("doc.xml", "<root/>")];
    let bytes = pack(&parts).ok().unwrap();
    let entries = unzip(&bytes);
    assert_eq!(entries[0].0, "doc.xml");
    assert_eq!(entries[0].1, b"<root/>");
}

#[test]
fn minimal_docx_has_the_static_parts() {
    let bytes = minimal_empty_doc().ok().unwrap();
    let names: Vec<String> = unzip(&bytes).into_iter().map(|(n, _)| n).collect();
    assert_eq!(names[0], "[Content_Types].xml");
    assert_eq!(names[1], "_rels/.rels");
    assert_eq!(names[2], "word/_rels/document.xml.rels");
    assert_eq!(names[3], "word/document.xml");
    assert!(names.contains(&"word/styles.xml".to_string()));
    assert!(names.contains(&"docProps/core.xml".to_string()));
    assert_eq!(names.len(), 12);
}

#[test]
fn packaged_image_is_registered_once_per_extension() {
    let png = vec![0x89u8, 0x50, 0x4E, 0x47, 0, 0, 0, 0];
    let image = |src: &str| Block {
        name: "image".into(),
        name_span: sp(),
        properties: vec![Property {
            key: "src".into(),
            key_span: sp(),
            value: PropertyValue::Quoted(src.into()),
            value_span: sp(),
        }],
        body: Body::Empty,
        inline_form: false,
        span: sp(),
    };
    let doc = Document {
        metadata: Metadata { span: sp(), properties: Vec::new() },
        blocks: vec![
            image("a.png"),
            image("b.png"),
            Block {
                name: "p".into(),
                name_span: sp(),
                properties: vec![],
                body: Body::Text(vec![TextPiece::Literal { text: "after".into(), span: sp() }]),
                inline_form: false,
                span: sp(),
            },
        ],
    };
    let sources = vec![
        ImageSource { src: "a.png".into(), ext: Some("png".into()), data: Ok(png.clone()) },
        ImageSource { src: "b.png".into(), ext: Some("png".into()), data: Ok(png.clone()) },
    ];
    let bytes = package_doc(&doc, None, sources).ok().unwrap();
    let entries = unzip(&bytes);
    let ct = String::from_utf8(entries[0].1.clone()).unwrap();
    assert_eq!(ct.matches(r#"Extension="png""#).count(), 1, "{ct}");
    let rels = String::from_utf8(entries[2].1.clone()).unwrap();
    assert!(rels.contains(r#"Id="rId7""#) && rels.contains(r#"Target="media/image1.png""#), "{rels}");
    assert!(rels.contains(r#"Id="rId8""#) && rels.contains(r#"Target="media/image2.png""#), "{rels}");
    let last = &entries[entries.len() - 1];
    assert_eq!(last.0, "word/media/image2.png");
    assert_eq!(last.1, png);
}
