use stem::docx2::emit::ctx::FootnoteEntry;
use stem::docx2::parts::font_table::font_table;
use stem::docx2::parts::footnotes::footnotes;
use stem::docx2::parts::numbering::{numbering, MAX_HEADING_LEVEL};
use stem::docx2::parts::rels::{build, kind, root, Rel};
use stem::docx2::parts::theme::theme1;

#[test]
fn font_table_includes_standard_families() {
    let s = font_table();
    for name in ["Times New Roman", "Symbol", "Courier New", "Calibri", "Calibri Light", "Arial", "Cambria"] {
        assert!(s.contains(&format!(r#"w:name="{name}""#)), "missing font {name} in {s}");
    }
}

#[test]
fn footnotes_with_no_entries_still_emits_separators() {
    let s = footnotes(&[]);
    assert!(s.contains(r#"<w:footnote w:type="separator" w:id="-1">"#));
    assert!(s.contains(r#"<w:footnote w:type="continuationSeparator" w:id="0">"#));
    assert_eq!(s.matches(r#"<w:footnote w:id=""#).count(), 0);
}

#[test]
fn one_footnote_entry_emits_with_reference_run() {
    let s = footnotes(&[FootnoteEntry { id: 1, text: "ipsum".into() }]);
    assert!(s.contains(r#"<w:footnote w:id="1">"#));
    assert!(s.contains("<w:footnoteRef/>"));
    assert!(s.contains(r#"<w:t xml:space="preserve"> ipsum</w:t>"#));
}

#[test]
fn numbering_has_three_abstracts_and_three_nums() {
    let s = numbering();
    assert_eq!(s.matches("<w:abstractNum ").count(), 3);
    assert_eq!(s.matches("<w:num ").count(), 3);
}

#[test]
fn lvl_child_order_is_canonical() {
    let s = numbering();
    let lvl_start = s.find("<w:lvl ").unwrap();
    let lvl_end = s[lvl_start..].find("</w:lvl>").unwrap() + lvl_start;
    let block = &s[lvl_start..lvl_end];
    let start = block.find("<w:start").unwrap();
    let numfmt = block.find("<w:numFmt").unwrap();
    let lvltext = block.find("<w:lvlText").unwrap();
    let lvljc = block.find("<w:lvlJc").unwrap();
    let ppr = block.find("<w:pPr>").unwrap();
    assert!(start < numfmt, "{block}");
    assert!(numfmt < lvltext);
    assert!(lvltext < lvljc);
    assert!(lvljc < ppr);
}

#[test]
fn heading_levels_have_pstyle_after_numfmt() {
    let s = numbering();
    let h3 = s.find(r#"w:abstractNumId="3""#).unwrap();
    let end = s[h3..].find("</w:abstractNum>").unwrap() + h3;
    let block = &s[h3..end];
    for level in 1..=MAX_HEADING_LEVEL {
        let id = format!(r#"w:val="Heading{level}""#);
        assert!(block.contains(&id), "missing {id} in heading numbering");
    }
    let lvl_start = block.find("<w:lvl ").unwrap();
    let lvl_end = block[lvl_start..].find("</w:lvl>").unwrap() + lvl_start;
    let lvl = &block[lvl_start..lvl_end];
    let nf = lvl.find("<w:numFmt").unwrap();
    let ps = lvl.find("<w:pStyle").unwrap();
    let lt = lvl.find("<w:lvlText").unwrap();
    assert!(nf < ps && ps < lt, "{lvl}");
}

#[test]
fn bullet_level_has_symbol_font_hint() {
    let s = numbering();
    let pos = s.find(r#"w:abstractNumId="2""#).unwrap();
    let end = s[pos..].find("</w:abstractNum>").unwrap() + pos;
    let block = &s[pos..end];
    assert!(block.contains(r#"w:ascii="Symbol""#));
}

#[test]
fn root_rels_includes_office_doc() {
    let s = root();
    assert!(s.contains(r#"Id="rId1""#));
    assert!(s.contains(r#"Target="word/document.xml""#));
    assert!(s.contains("officeDocument"));
}

#[test]
fn external_target_mode_emits() {
    let s = build(&[Rel::external("rId7", kind::HYPERLINK, "https://example.org")]);
    assert!(s.contains(r#"TargetMode="External""#));
    assert!(s.contains(r#"Target="https://example.org""#));
}

#[test]
fn theme_has_all_required_elements() {
    let s = theme1();
    assert!(s.contains("<a:clrScheme"));
    assert!(s.contains("<a:fontScheme"));
    assert!(s.contains("<a:fmtScheme"));
    assert!(s.contains(r#"<a:majorFont>"#));
    assert!(s.contains(r#"typeface="Calibri Light""#));
    assert_eq!(s.matches("<a:fillStyleLst>").count(), 1);
    assert_eq!(s.matches("<a:bgFillStyleLst>").count(), 1);
}
