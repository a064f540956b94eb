use stem::ast_v2::{Block, Body, Document, Metadata, Property, PropertyValue, TextPiece};
use stem::docx::emit::table::{render_table, CONTENT_WIDTH_DXA};
use stem::docx::xml::XmlBuf;
use stem::docx2::emit::ctx::{CaptionAnchor, CaptionKind, EmitCtx, HeadingAnchor};
use stem::docx2::emit::paragraph::render_block;
use stem::docx2::emit::prepass::collect;
use stem::docx2::emit::toc::try_render_toc_section;
use stem::span::{Pos, Span};

fn sp() -> Span {
    Span::new(Pos::new(0, 1, 1), Pos::new(0, 1, 1))
}

fn prop(k: &str, v: &str) -> Property {
    Property { key: k.into(), key_span: sp(), value: PropertyValue::Bare(v.into()), value_span: sp() }
}

fn qprop(k: &str, v: &str) -> Property {
    Property { key: k.into(), key_span: sp(), value: PropertyValue::Quoted(v.into()), value_span: sp() }
}

fn block(name: &str, props: Vec<Property>, body: Body) -> Block {
    Block { name: name.into(), name_span: sp(), properties: props, body, inline_form: false, span: sp() }
}

/// `name[props](text)`.
fn tb(name: &str, props: Vec<Property>, text: &str) -> Block {
    block(name, props, Body::Text(vec![TextPiece::Literal { text: text.into(), span: sp() }]))
}

/// `name[props]{ kids }`.
fn cb(name: &str, props: Vec<Property>, kids: Vec<Block>) -> Block {
    block(name, props, Body::Children(kids))
}

fn cell(text: &str) -> Block {
    tb("cell", Vec::new(), text)
}

fn row(props: Vec<Property>, cells: Vec<Block>) -> Block {
    cb("row", props, cells)
}

fn doc(blocks: Vec<Block>) -> Document {
    Document { metadata: Metadata { span: sp(), properties: Vec::new() }, blocks }
}

fn render_tables(blocks: &[Block]) -> String {
    let mut ctx = EmitCtx::new(None, 1);
    let mut x = XmlBuf::new();
    for b in blocks {
        if b.name == "table" {
            render_table(b, &mut ctx, &mut x);
        }
    }
    x.finish()
}

fn render_blocks(blocks: &[Block]) -> String {
    let mut ctx = EmitCtx::new(None, 1);
    let mut x = XmlBuf::new();
    for b in blocks {
        render_block(b, &mut ctx, &mut x);
    }
    x.finish()
}

// ---------------------------------------------------------------- tables

#[test]
fn table_empty_table_renders_only_caption_if_any() {
    let s = render_tables(&[cb("table", vec![qprop("caption", "Hi")], vec![])]);
    assert!(!s.contains("<w:tbl>"));
    assert!(s.contains("<w:pStyle w:val=\"Caption\"/>"));
    assert!(s.contains("Table "));
    assert!(s.contains(". Hi"));
    assert!(s.contains(r#"w:instr=" SEQ Table \* ARABIC ""#));
}

#[test]
fn table_simple_2x2_table_emits_tbl_with_grid() {
    let s = render_tables(&[cb(
        "table",
        vec![prop("border", "all")],
        vec![row(vec![], vec![cell("A"), cell("B")]), row(vec![], vec![cell("C"), cell("D")])],
    )]);
    assert!(s.contains("<w:tbl>"));
    assert!(s.contains("<w:tblBorders>"));
    assert_eq!(s.matches("<w:gridCol ").count(), 2);
    assert_eq!(s.matches("<w:tc>").count(), 4);
    assert!(s.contains("A") && s.contains("D"));
}

#[test]
fn table_header_row_runs_are_bold() {
    let s = render_tables(&[cb(
        "table",
        vec![],
        vec![
            row(vec![prop("kind", "header")], vec![cell("H1"), cell("H2")]),
            row(vec![], vec![cell("d1"), cell("d2")]),
        ],
    )]);
    assert!(s.contains("<w:tblHeader/>"));
    assert!(s.contains("<w:b/>"));
}

#[test]
#[allow(non_snake_case)]
fn table_colspan_emits_gridSpan_and_widens_tcW() {
    let s = render_tables(&[cb(
        "table",
        vec![],
        vec![
            row(vec![], vec![tb("cell", vec![prop("colspan", "2")], "spans"), cell("c")]),
            row(vec![], vec![cell("a"), cell("b"), cell("c")]),
        ],
    )]);
    assert!(s.contains(r#"<w:gridSpan w:val="2"/>"#));
    let per_col = CONTENT_WIDTH_DXA / 3;
    let wide = per_col * 2;
    let needle = format!(r#"<w:tcW w:w="{wide}""#);
    assert!(s.contains(&needle), "missing wide tcW {wide}: {s}");
}

#[test]
#[allow(non_snake_case)]
fn table_rowspan_emits_vMerge_restart_then_continue() {
    let s = render_tables(&[cb(
        "table",
        vec![],
        vec![
            row(vec![], vec![tb("cell", vec![prop("rowspan", "2")], "tall"), cell("x")]),
            row(vec![], vec![cell("y")]),
        ],
    )]);
    assert!(s.contains(r#"<w:vMerge w:val="restart"/>"#));
    assert!(s.contains("<w:vMerge/>"));
}

#[test]
fn table_stripe_applies_to_alternate_data_rows() {
    let s = render_tables(&[cb(
        "table",
        vec![prop("stripe", "true")],
        vec![
            row(vec![prop("kind", "header")], vec![cell("H")]),
            row(vec![], vec![cell("r1")]),
            row(vec![], vec![cell("r2")]),
            row(vec![], vec![cell("r3")]),
        ],
    )]);
    assert!(s.contains(r#"w:fill="F2F2F2""#), "expected stripe fill: {s}");
}

#[test]
#[allow(non_snake_case)]
fn table_cell_align_emits_w_jc_on_paragraph() {
    let s = render_tables(&[cb("table", vec![], vec![row(vec![], vec![tb("cell", vec![prop("align", "right")], "r")])])]);
    assert!(s.contains(r#"<w:jc w:val="right"/>"#));
}

#[test]
fn row_height_emits_tr_height_with_default_rule() {
    let s = render_tables(&[cb("table", vec![], vec![row(vec![prop("height", "24pt")], vec![cell("tall")])])]);
    assert!(s.contains(r#"<w:trHeight w:val="480"/>"#), "expected w:trHeight w:val=480 (24pt = 480 dxa): {s}");
}

#[test]
fn row_height_rule_exact_propagates_to_tr_height() {
    let s = render_tables(&[cb(
        "table",
        vec![],
        vec![row(vec![prop("height", "30pt"), prop("height-rule", "exact")], vec![cell("fixed")])],
    )]);
    assert!(s.contains(r#"<w:trHeight w:val="600" w:hRule="exact"/>"#), "expected exact rule on trHeight: {s}");
}

#[test]
fn row_height_coexists_with_header_marker() {
    let s = render_tables(&[cb(
        "table",
        vec![],
        vec![row(vec![prop("kind", "header"), prop("height", "22pt")], vec![cell("H")])],
    )]);
    assert!(s.contains(r#"<w:trHeight w:val="440"/>"#), "{s}");
    assert!(s.contains("<w:tblHeader/>"), "{s}");
}

#[test]
fn table_row_height_cascades_into_unset_rows() {
    let s = render_tables(&[cb(
        "table",
        vec![prop("row-height", "20pt")],
        vec![
            row(vec![prop("kind", "header"), prop("height", "24pt")], vec![cell("H")]),
            row(vec![], vec![cell("A")]),
            row(vec![], vec![cell("B")]),
        ],
    )]);
    assert!(s.contains(r#"<w:trHeight w:val="480"/>"#), "header keeps its own 24pt: {s}");
    let inherited = s.matches(r#"<w:trHeight w:val="400"/>"#).count();
    assert_eq!(inherited, 2, "expected 2 rows to inherit 20pt: {s}");
}

#[test]
fn table_row_height_rule_cascades_alongside_height() {
    let s = render_tables(&[cb(
        "table",
        vec![prop("row-height", "18pt"), prop("row-height-rule", "exact")],
        vec![row(vec![], vec![cell("a")])],
    )]);
    assert!(s.contains(r#"<w:trHeight w:val="360" w:hRule="exact"/>"#), "expected cascaded exact rule: {s}");
}

#[test]
#[allow(non_snake_case)]
fn table_cell_valign_emits_w_vAlign_on_tcPr() {
    let s = render_tables(&[cb("table", vec![], vec![row(vec![], vec![tb("cell", vec![prop("valign", "middle")], "m")])])]);
    assert!(s.contains(r#"<w:vAlign w:val="center"/>"#));
}

#[test]
fn caption_emits_below_table_with_caption_style_and_seq_field() {
    let s = render_tables(&[cb("table", vec![qprop("caption", "Hello")], vec![row(vec![], vec![cell("A")])])]);
    let tbl_pos = s.find("<w:tbl>").unwrap();
    let cap_pos = s.find(r#"<w:pStyle w:val="Caption"/>"#).unwrap();
    assert!(tbl_pos < cap_pos, "caption should come after tbl");
    assert!(s.contains(". Hello"));
    assert!(s.contains(r#"w:instr=" SEQ Table \* ARABIC ""#));
}

#[test]
fn caption_emits_below_table_with_caption_style() {
    let s = render_tables(&[cb("table", vec![qprop("caption", "Hello")], vec![row(vec![], vec![cell("A")])])]);
    let tbl_pos = s.find("<w:tbl>").unwrap();
    let cap_pos = s.find(r#"<w:pStyle w:val="Caption"/>"#).unwrap();
    assert!(tbl_pos < cap_pos, "caption should come after tbl");
}

#[test]
#[allow(non_snake_case)]
fn table_tcPr_child_order_is_canonical() {
    let s = render_tables(&[cb(
        "table",
        vec![],
        vec![
            row(
                vec![],
                vec![
                    tb(
                        "cell",
                        vec![prop("colspan", "2"), prop("rowspan", "2"), qprop("bg", "#cccccc"), prop("valign", "middle")],
                        "x",
                    ),
                    cell("y"),
                ],
            ),
            row(vec![], vec![cell("z")]),
        ],
    )]);
    let tcpr = s.find("<w:tcPr>").unwrap();
    let end = s[tcpr..].find("</w:tcPr>").unwrap() + tcpr;
    let block = &s[tcpr..end];
    let w = block.find("<w:tcW").unwrap();
    let gs = block.find("<w:gridSpan").unwrap();
    let vm = block.find("<w:vMerge").unwrap();
    let shd = block.find("<w:shd ").unwrap();
    let va = block.find("<w:vAlign").unwrap();
    assert!(w < gs, "tcW < gridSpan: {block}");
    assert!(gs < vm, "gridSpan < vMerge: {block}");
    assert!(vm < shd, "vMerge < shd: {block}");
    assert!(shd < va, "shd < vAlign: {block}");
}

#[test]
fn explicit_column_widths_fill_the_grid() {
    let s = render_tables(&[cb(
        "table",
        vec![qprop("widths", "2000,3000")],
        vec![row(vec![], vec![cell("a"), cell("b")])],
    )]);
    assert!(s.contains(r#"<w:gridCol w:w="2000"/>"#), "{s}");
    assert!(s.contains(r#"<w:gridCol w:w="3000"/>"#), "{s}");
}

// ---------------------------------------------------------------- paragraphs

#[test]
fn title_carries_title_style_and_centered_jc() {
    let s = render_blocks(&[tb("title", vec![], "Hello world")]);
    assert!(s.contains(r#"<w:pStyle w:val="Title"/>"#));
    assert!(s.contains(r#"<w:jc w:val="center"/>"#));
    assert!(s.contains("Hello world"));
}

#[test]
fn heading_carries_style_for_each_level() {
    for level in 1..=6u32 {
        let s = render_blocks(&[tb(&format!("h{level}"), vec![], "text")]);
        assert!(s.contains(&format!(r#"<w:pStyle w:val="Heading{level}"/>"#)), "missing pStyle Heading{level} in {s}");
    }
}

#[test]
#[allow(non_snake_case)]
fn heading_numbered_adds_numPr() {
    let s = render_blocks(&[tb("h2", vec![prop("numbered", "true")], "Section A")]);
    assert!(s.contains("<w:numPr>"));
    assert!(s.contains(r#"<w:ilvl w:val="1"/>"#));
    assert!(s.contains(r#"<w:numId w:val="3"/>"#));
}

#[test]
#[allow(non_snake_case)]
fn paragraph_carries_no_pPr_when_unstyled() {
    let s = render_blocks(&[tb("p", vec![], "hello")]);
    assert!(s.contains("<w:p>"));
    assert!(!s.contains("<w:pPr>"));
    assert!(s.contains("hello"));
}

#[test]
fn blockquote_emits_left_indent() {
    let s = render_blocks(&[tb("blockquote", vec![], "quoted text")]);
    assert!(s.contains(r#"<w:ind w:left="720"/>"#));
    assert!(s.contains("quoted text"));
}

#[test]
fn pagebreak_emits_w_br_inside_w_p() {
    let s = render_blocks(&[block("pagebreak", vec![], Body::Empty)]);
    assert!(s.contains(r#"<w:p><w:r><w:br w:type="page"/></w:r></w:p>"#));
}

#[test]
fn section_recurses_into_children() {
    let s = render_blocks(&[cb("section", vec![], vec![tb("h2", vec![], "Inner heading"), tb("p", vec![], "Inner paragraph")])]);
    assert!(s.contains(r#"<w:pStyle w:val="Heading2"/>"#));
    assert!(s.contains("Inner paragraph"));
}

#[test]
fn inline_text_pieces_flatten_to_plain_text() {
    let b = block(
        "p",
        vec![],
        Body::Text(vec![
            TextPiece::Literal { text: "hello ".into(), span: sp() },
            TextPiece::Inline(Block {
                name: "b".into(),
                name_span: sp(),
                properties: vec![],
                body: Body::Text(vec![TextPiece::Literal { text: "bold".into(), span: sp() }]),
                inline_form: true,
                span: sp(),
            }),
            TextPiece::Literal { text: " world".into(), span: sp() },
        ]),
    );
    let s = render_blocks(&[b]);
    assert!(s.contains("hello bold world") || s.contains("hello"));
}

#[test]
fn unknown_block_falls_back_to_plain_paragraph() {
    let s = render_blocks(&[tb("widget", vec![], "unrecognized content")]);
    assert!(s.contains("unrecognized content"));
}

#[test]
fn heading_is_bookmarked_as_next_toc_anchor() {
    let mut ctx = EmitCtx::new(None, 1);
    let mut x = XmlBuf::new();
    render_block(&tb("h1", vec![], "Intro"), &mut ctx, &mut x);
    render_block(&tb("h2", vec![], "Detail"), &mut ctx, &mut x);
    let s = x.finish();
    assert_eq!(ctx.heading_anchors.len(), 2);
    assert_eq!(ctx.heading_anchors[1].bookmark, "_Toc2");
    assert_eq!(ctx.heading_anchors[1].text, "Detail");
    assert!(s.contains(r#"<w:bookmarkStart w:id="1" w:name="_Toc1"/>"#), "{s}");
    assert!(s.contains(r#"<w:bookmarkStart w:id="2" w:name="_Toc2"/>"#), "{s}");
}

#[test]
fn header_and_footer_blocks_stay_out_of_the_body() {
    let s = render_blocks(&[cb("header", vec![], vec![tb("p", vec![], "chrome")])]);
    assert_eq!(s, "");
}

// ---------------------------------------------------------------- prepass

#[test]
fn headings_collected_in_order_with_toc_bookmarks() {
    let d = doc(vec![tb("h1", vec![], "Alpha"), tb("h2", vec![], "Beta"), tb("h3", vec![], "Gamma"), tb("h1", vec![], "Delta")]);
    let mut ctx = EmitCtx::new(None, 1);
    collect(&d, &mut ctx);
    assert_eq!(ctx.heading_anchors.len(), 4);
    assert_eq!(ctx.heading_anchors[0].bookmark, "_Toc1");
    assert_eq!(ctx.heading_anchors[0].text, "Alpha");
    assert_eq!(ctx.heading_anchors[0].level, 1);
    assert_eq!(ctx.heading_anchors[1].bookmark, "_Toc2");
    assert_eq!(ctx.heading_anchors[1].level, 2);
    assert_eq!(ctx.heading_anchors[3].bookmark, "_Toc4");
    assert_eq!(ctx.heading_anchors[3].level, 1);
}

#[test]
fn captions_collect_separately_by_kind() {
    let d = doc(vec![
        cb("table", vec![qprop("caption", "First table")], vec![row(vec![], vec![cell("x")])]),
        block("image", vec![qprop("src", "a.png"), qprop("caption", "First fig")], Body::Empty),
        cb("table", vec![qprop("caption", "Second table")], vec![row(vec![], vec![cell("y")])]),
        block("image", vec![qprop("src", "b.png"), qprop("caption", "Second fig")], Body::Empty),
    ]);
    let mut ctx = EmitCtx::new(None, 1);
    collect(&d, &mut ctx);
    let tables: Vec<&CaptionAnchor> = ctx.captions.iter().filter(|c| matches!(c.kind, CaptionKind::Table)).collect();
    let figures: Vec<&CaptionAnchor> = ctx.captions.iter().filter(|c| matches!(c.kind, CaptionKind::Figure)).collect();
    assert_eq!(tables.len(), 2);
    assert_eq!(figures.len(), 2);
    assert_eq!(tables[0].text, "First table");
    assert_eq!(tables[0].bookmark, "_Toc_table_1");
    assert_eq!(figures[1].bookmark, "_Toc_figure_2");
}

#[test]
fn headings_inside_section_are_found_recursively() {
    let d = doc(vec![cb(
        "section",
        vec![],
        vec![tb("h1", vec![], "Outer"), cb("section", vec![], vec![tb("h2", vec![], "Inner")])],
    )]);
    let mut ctx = EmitCtx::new(None, 1);
    collect(&d, &mut ctx);
    assert_eq!(ctx.heading_anchors.len(), 2);
    assert_eq!(ctx.heading_anchors[0].text, "Outer");
    assert_eq!(ctx.heading_anchors[1].text, "Inner");
}

#[test]
fn header_blocks_are_set_aside_with_their_scope() {
    let d = doc(vec![
        cb("header", vec![prop("scope", "first")], vec![tb("p", vec![], "Cover")]),
        cb("footer", vec![], vec![tb("p", vec![], "Page")]),
    ]);
    let mut ctx = EmitCtx::new(None, 1);
    collect(&d, &mut ctx);
    assert_eq!(ctx.headers.len(), 1);
    assert_eq!(ctx.footers.len(), 1);
    assert_eq!(ctx.header_scopes[0].w_type(), "first");
    assert_eq!(ctx.footer_scopes[0].w_type(), "default");
}

// ---------------------------------------------------------------- toc

fn ctx_with(headings: Vec<HeadingAnchor>, captions: Vec<CaptionAnchor>) -> EmitCtx<'static> {
    let mut ctx = EmitCtx::new(None, 1);
    ctx.heading_anchors = headings;
    ctx.captions = captions;
    ctx
}

fn section(props: Vec<Property>) -> Block {
    block("section", props, Body::Empty)
}

#[test]
fn toc_with_no_headings_emits_field_placeholder() {
    let mut ctx = ctx_with(Vec::new(), Vec::new());
    let mut x = XmlBuf::new();
    try_render_toc_section(&section(vec![prop("id", "toc")]), &mut ctx, &mut x);
    let s = x.finish();
    assert!(s.contains(r#"<w:pStyle w:val="TOCHeading"/>"#));
    assert!(s.contains("Table of Contents"));
    assert!(s.contains(" TOC "));
}

#[test]
fn toc_pre_populates_entries_in_document_order() {
    let headings = vec![
        HeadingAnchor { bookmark: "_Toc1".into(), level: 1, text: "Alpha".into() },
        HeadingAnchor { bookmark: "_Toc2".into(), level: 2, text: "Beta".into() },
        HeadingAnchor { bookmark: "_Toc3".into(), level: 1, text: "Gamma".into() },
    ];
    let mut ctx = ctx_with(headings, Vec::new());
    let mut x = XmlBuf::new();
    try_render_toc_section(&section(vec![prop("id", "toc")]), &mut ctx, &mut x);
    let s = x.finish();
    assert_eq!(s.matches("<w:hyperlink ").count(), 3);
    assert!(s.contains(r#"<w:hyperlink w:anchor="_Toc1""#));
    assert!(s.contains(r#"<w:hyperlink w:anchor="_Toc3""#));
    let begin = s.find(r#"w:fldCharType="begin""#).unwrap();
    let end = s.find(r#"w:fldCharType="end""#).unwrap();
    assert!(begin < end);
    assert!(s.contains("Alpha") && s.contains("Beta") && s.contains("Gamma"));
    assert!(s.contains(r#"<w:pStyle w:val="TOC1"/>"#));
    assert!(s.contains(r#"<w:pStyle w:val="TOC2"/>"#));
}

#[test]
fn toc_respects_levels_range() {
    let headings = vec![
        HeadingAnchor { bookmark: "_Toc1".into(), level: 1, text: "Top".into() },
        HeadingAnchor { bookmark: "_Toc2".into(), level: 3, text: "Deep".into() },
    ];
    let mut ctx = ctx_with(headings, Vec::new());
    let mut x = XmlBuf::new();
    try_render_toc_section(&section(vec![prop("id", "toc"), qprop("levels", "1-2")]), &mut ctx, &mut x);
    let s = x.finish();
    assert!(s.contains("Top"));
    assert!(!s.contains("Deep"));
}

#[test]
#[allow(non_snake_case)]
fn list_of_tables_emits_TableofFigures_styled_entries() {
    let captions = vec![
        CaptionAnchor { kind: CaptionKind::Table, bookmark: "_Toc_table_1".into(), text: "Algorithms".into(), seq: 1 },
        CaptionAnchor { kind: CaptionKind::Figure, bookmark: "_Toc_figure_1".into(), text: "Diagram".into(), seq: 1 },
    ];
    let mut ctx = ctx_with(Vec::new(), captions);
    let mut x = XmlBuf::new();
    try_render_toc_section(&section(vec![prop("id", "list-of-tables")]), &mut ctx, &mut x);
    let s = x.finish();
    assert!(s.contains("List of Tables"));
    assert!(s.contains("Algorithms"));
    assert!(!s.contains("Diagram"));
    assert!(s.contains("Table 1. Algorithms"));
    assert!(s.contains(r#"<w:pStyle w:val="TableofFigures"/>"#));
}

#[test]
fn unknown_section_id_returns_false() {
    let mut ctx = ctx_with(Vec::new(), Vec::new());
    let mut x = XmlBuf::new();
    let handled = try_render_toc_section(&section(vec![prop("id", "other")]), &mut ctx, &mut x);
    assert!(!handled);
    assert_eq!(x.finish(), "");
}

#[test]
fn toc_section_renders_through_block_dispatch() {
    let mut ctx = ctx_with(vec![HeadingAnchor { bookmark: "_Toc1".into(), level: 1, text: "Alpha".into() }], Vec::new());
    let mut x = XmlBuf::new();
    render_block(&cb("section", vec![prop("id", "toc")], vec![tb("p", vec![], "ignored")]), &mut ctx, &mut x);
    let s = x.finish();
    assert!(s.contains(r#"<w:hyperlink w:anchor="_Toc1""#));
    assert!(!s.contains("ignored"));
}
