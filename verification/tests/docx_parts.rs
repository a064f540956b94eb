use stem::docx::parts::header_footer::{footer, header};
use stem::docx2::emit::ctx::EmitCtx;
use stem::docx::parts::doc_props::{app, core_props, epoch_to_utc, w3cdtf_from_epoch};
use stem::docx::parts::endnotes::endnotes;
use stem::docx::parts::settings::settings;
use stem::docx::parts::styles::{styles, Fonts, PPr, RPr, Spacing, Style};
use stem::docx::parts::web_settings::web_settings;
use stem::docx::xml::XmlBuf;

fn render(s: Style) -> String {
    let mut x = XmlBuf::new();
    s.render(&mut x);
    x.finish()
}

#[test]
fn core_has_required_dcterms() {
    let s = core_props("2026-05-23T00:00:00Z");
    assert!(s.contains("<cp:coreProperties"));
    assert!(s.contains(r#"xsi:type="dcterms:W3CDTF""#));
    assert!(s.contains("2026-05-23T00:00:00Z"));
}

#[test]
fn app_has_application() {
    let s = app();
    assert!(s.contains("<Application>Stem</Application>"));
}

#[test]
fn epoch_to_utc_known_values() {
    assert_eq!(epoch_to_utc(0), (1970, 1, 1, 0, 0, 0));
    assert_eq!(epoch_to_utc(951_782_400), (2000, 2, 29, 0, 0, 0));
    assert_eq!(epoch_to_utc(1_779_537_600), (2026, 5, 23, 12, 0, 0));
    assert_eq!(epoch_to_utc(946_684_799), (1999, 12, 31, 23, 59, 59));
}

#[test]
fn epoch_to_utc_before_epoch() {
    // One second before the epoch is the last second of 1969.
    assert_eq!(epoch_to_utc(-1), (1969, 12, 31, 23, 59, 59));
}

#[test]
fn w3cdtf_formats_epoch_zero() {
    assert_eq!(w3cdtf_from_epoch(0), "1970-01-01T00:00:00Z");
    assert_eq!(w3cdtf_from_epoch(1_779_537_600), "2026-05-23T12:00:00Z");
}

#[test]
fn endnotes_has_both_separator_entries() {
    let s = endnotes();
    assert!(s.contains(r#"<w:endnote w:type="separator" w:id="-1">"#));
    assert!(s.contains(r#"<w:endnote w:type="continuationSeparator" w:id="0">"#));
    assert!(s.contains("<w:separator/>"));
    assert!(s.contains("<w:continuationSeparator/>"));
}

#[test]
fn settings_has_required_blocks() {
    let s = settings();
    assert!(s.contains(r#"<w:zoom w:percent="100"/>"#));
    assert!(s.contains("<w:footnotePr>"));
    assert!(s.contains("<w:endnotePr>"));
    assert!(s.contains(r#"w:name="compatibilityMode""#));
    assert!(s.contains(r#"w:val="15""#));
}

#[test]
#[allow(non_snake_case)]
fn style_metadata_precedes_pPr_and_rPr() {
    let xml = render(
        Style::paragraph("X", "x")
            .based_on("Normal")
            .ui_priority(10)
            .q_format()
            .p_pr(PPr { keep_next: true, ..Default::default() })
            .r_pr(RPr { bold: true, ..Default::default() }),
    );
    let name_pos = xml.find("<w:name").unwrap();
    let based_on_pos = xml.find("<w:basedOn").unwrap();
    let priority_pos = xml.find("<w:uiPriority").unwrap();
    let qformat_pos = xml.find("<w:qFormat").unwrap();
    let ppr_pos = xml.find("<w:pPr>").unwrap();
    let rpr_pos = xml.find("<w:rPr>").unwrap();
    assert!(name_pos < based_on_pos);
    assert!(based_on_pos < priority_pos);
    assert!(priority_pos < qformat_pos);
    assert!(qformat_pos < ppr_pos);
    assert!(ppr_pos < rpr_pos);
}

#[test]
#[allow(non_snake_case)]
fn ppr_keep_next_precedes_spacing_precedes_outlineLvl() {
    let xml = render(
        Style::paragraph("X", "x").based_on("Normal").p_pr(PPr {
            keep_next: true,
            keep_lines: true,
            spacing: Some(Spacing { before: Some(240), after: Some(0), line: None }),
            outline_lvl: Some(0),
            ..Default::default()
        }),
    );
    let kn = xml.find("<w:keepNext/>").unwrap();
    let kl = xml.find("<w:keepLines/>").unwrap();
    let sp = xml.find("<w:spacing").unwrap();
    let ol = xml.find("<w:outlineLvl").unwrap();
    assert!(kn < kl);
    assert!(kl < sp);
    assert!(sp < ol);
}

#[test]
fn rpr_fonts_precedes_bold_color_size_underline() {
    let xml = render(Style::character("X", "x").r_pr(RPr {
        fonts: Some(Fonts { ascii: Some("Calibri".into()), ..Default::default() }),
        bold: true,
        color: Some("000000".into()),
        size_hp: Some(22),
        underline: Some("single".into()),
        ..Default::default()
    }));
    let f = xml.find("<w:rFonts").unwrap();
    let b = xml.find("<w:b/>").unwrap();
    let c = xml.find("<w:color").unwrap();
    let s = xml.find("<w:sz ").unwrap();
    let u = xml.find("<w:u ").unwrap();
    assert!(f < b);
    assert!(b < c);
    assert!(c < s);
    assert!(s < u);
}

#[test]
fn full_styles_includes_expected_ids() {
    let s = styles();
    for id in [
        "Normal",
        "DefaultParagraphFont",
        "TableNormal",
        "NoList",
        "Heading1",
        "Heading6",
        "Title",
        "Caption",
        "Hyperlink",
        "FootnoteReference",
        "TOC1",
        "TOC9",
        "TOCHeading",
        "TableofFigures",
        "ListParagraph",
    ] {
        assert!(s.contains(&format!(r#"w:styleId="{id}""#)), "missing styleId {id}");
    }
}

#[test]
fn doc_defaults_come_before_latent_styles_and_real_styles() {
    let s = styles();
    let dd = s.find("<w:docDefaults>").unwrap();
    let ls = s.find("<w:latentStyles ").unwrap();
    let normal = s.find(r#"w:styleId="Normal""#).unwrap();
    assert!(dd < ls);
    assert!(ls < normal);
}

#[test]
#[allow(non_snake_case)]
fn heading1_has_outlineLvl_0() {
    let s = styles();
    let start = s.find(r#"w:styleId="Heading1""#).unwrap();
    let end = s[start..].find("</w:style>").unwrap() + start;
    let block = &s[start..end];
    assert!(block.contains(r#"<w:outlineLvl w:val="0"/>"#), "block: {block}");
}

#[test]
fn web_settings_has_three_flags() {
    let s = web_settings();
    assert!(s.contains("<w:optimizeForBrowser/>"));
    assert!(s.contains("<w:relyOnVML/>"));
    assert!(s.contains("<w:allowPNG/>"));
}

fn chrome_block(name: &str, body: stem::ast_v2::Body) -> stem::ast_v2::Block {
    let sp = stem::span::Span::new(stem::span::Pos::new(0, 1, 1), stem::span::Pos::new(0, 1, 1));
    stem::ast_v2::Block { name: name.into(), name_span: sp, properties: Vec::new(), body, inline_form: false, span: sp }
}

#[test]
fn header_always_holds_a_paragraph() {
    let mut ctx = EmitCtx::new(None, 1);
    let empty = header(&[], &mut ctx);
    assert!(empty.contains("<w:hdr"));
    assert!(empty.contains("<w:p/>"));
    // A section with no body renders nothing; the part still gets one.
    let silent = footer(&[chrome_block("section", stem::ast_v2::Body::Empty)], &mut ctx);
    assert!(silent.contains("<w:p/></w:ftr>"));
    // Blocks that render a paragraph get no extra one.
    let text = vec![stem::ast_v2::TextPiece::Literal { text: "Page".into(), span: stem::span::Span::new(stem::span::Pos::new(0, 1, 1), stem::span::Pos::new(0, 1, 1)) }];
    let full = header(&[chrome_block("p", stem::ast_v2::Body::Text(text))], &mut ctx);
    assert!(full.contains("Page"));
    assert!(!full.contains("<w:p/>"));
}
