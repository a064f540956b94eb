use stem::ast_v2::{Block, Body, Property, PropertyValue, TextPiece};
use stem::docx::xml::XmlBuf;
use stem::docx2::emit::ctx::{EmitCtx, ImageSource};
use stem::docx2::emit::drawing::{
    resolve_image_path,
    detect_ext, parse_length_to_emu, render_image, EMU_PER_CM, EMU_PER_INCH, EMU_PER_PT, EMU_PER_PX,
};
use stem::docx2::emit::field::{
    render_complex, render_num_pages, render_page, render_page_ref, render_seq,
};
use stem::docx2::emit::hyperlink::{parse_target, render_bookmark, render_link, LinkTarget};
use stem::docx2::emit::run::{render_body, render_page_break, RPr};
use stem::docx2::emit::toc::parse_levels;
use stem::span::{Pos, Span};

fn sp() -> Span {
    Span::new(Pos::new(0, 1, 1), Pos::new(0, 1, 1))
}

fn prop(k: &str, v: &str, quoted: bool) -> Property {
    Property {
        key: k.into(),
        key_span: sp(),
        value: if quoted { PropertyValue::Quoted(v.into()) } else { PropertyValue::Bare(v.into()) },
        value_span: sp(),
    }
}

fn lit(s: &str) -> TextPiece {
    TextPiece::Literal { text: s.into(), span: sp() }
}

fn block(name: &str, props: Vec<Property>, body: Body, inline: bool) -> Block {
    Block { name: name.into(), name_span: sp(), properties: props, body, inline_form: inline, span: sp() }
}

fn inline(name: &str, props: Vec<Property>, pieces: Vec<TextPiece>) -> TextPiece {
    TextPiece::Inline(block(name, props, Body::Text(pieces), true))
}

fn para(pieces: Vec<TextPiece>) -> Block {
    block("p", Vec::new(), Body::Text(pieces), false)
}

fn render_runs(b: &Block) -> String {
    let mut ctx = EmitCtx::new(None, 1);
    let mut x = XmlBuf::new();
    render_body(b, &mut ctx, &mut x);
    x.finish()
}

fn make_png() -> Vec<u8> {
    vec![
        0x89, 0x50, 0x4E, 0x47, 0x0D, 0x0A, 0x1A, 0x0A, 0x00, 0x00, 0x00, 0x0D, 0x49, 0x48, 0x44, 0x52,
        0x00, 0x00, 0x00, 0x01, 0x00, 0x00, 0x00, 0x01, 0x08, 0x06, 0x00, 0x00, 0x00, 0x1F, 0x15, 0xC4,
        0x89, 0x00, 0x00, 0x00, 0x0D, 0x49, 0x44, 0x41, 0x54, 0x78, 0x9C, 0x63, 0x00, 0x01, 0x00, 0x00,
        0x05, 0x00, 0x01, 0x0D, 0x0A, 0x2D, 0xB4, 0x00, 0x00, 0x00, 0x00, 0x49, 0x45, 0x4E, 0x44, 0xAE,
        0x42, 0x60, 0x82,
    ]
}

fn ctx_with_png(start_rid: u32) -> EmitCtx<'static> {
    let mut ctx = EmitCtx::new(None, start_rid);
    ctx.image_sources.push(ImageSource {
        src: "/tmp/logo.png".into(),
        ext: Some("png".into()),
        data: Ok(make_png()),
    });
    ctx
}

fn render_img(b: &Block, ctx: &mut EmitCtx) -> String {
    let mut x = XmlBuf::new();
    render_image(b, ctx, &mut x);
    x.finish()
}

// ---------------------------------------------------------------- drawing

#[test]
fn missing_src_emits_placeholder_paragraph() {
    let mut ctx = EmitCtx::new(None, 1);
    let b = block("image", Vec::new(), Body::Empty, false);
    let s = render_img(&b, &mut ctx);
    assert!(s.contains("[image: missing src]"));
    assert!(ctx.images.is_empty());
}

#[test]
fn missing_file_emits_placeholder_with_error_reason() {
    let mut ctx = EmitCtx::new(None, 1);
    let b = block("image", vec![prop("src", "does-not-exist.png", true)], Body::Empty, false);
    let s = render_img(&b, &mut ctx);
    assert!(s.contains("failed to read") && s.contains("does-not-exist.png"), "got: {s}");
    assert!(ctx.images.is_empty());
}

#[test]
fn unreadable_file_emits_placeholder_with_its_message() {
    let mut ctx = EmitCtx::new(None, 1);
    ctx.image_sources.push(ImageSource {
        src: "x.png".into(),
        ext: Some("png".into()),
        data: Err("permission denied".into()),
    });
    let b = block("image", vec![prop("src", "x.png", true)], Body::Empty, false);
    let s = render_img(&b, &mut ctx);
    assert!(s.contains("[image: failed to read x.png: permission denied]"), "got: {s}");
    assert!(ctx.images.is_empty());
}

#[test]
fn unreadable_file_reason_names_the_resolved_path() {
    let mut ctx = EmitCtx::new(Some("/docs"), 1);
    ctx.image_sources.push(ImageSource { src: "x.png".into(), ext: None, data: Err("denied".into()) });
    let b = block("image", vec![prop("src", "x.png", true)], Body::Empty, false);
    let s = render_img(&b, &mut ctx);
    assert!(s.contains("[image: failed to read /docs/x.png: denied]"), "got: {s}");
}

#[test]
fn image_paths_resolve_against_the_base() {
    assert_eq!(resolve_image_path("a.png", Some("/docs")), "/docs/a.png");
    assert_eq!(resolve_image_path("a.png", Some("/docs/")), "/docs/a.png");
    assert_eq!(resolve_image_path("/abs/a.png", Some("/docs")), "/abs/a.png");
    assert_eq!(resolve_image_path("a.png", None), "a.png");
}

#[test]
fn inline_image_registers_and_emits_drawing() {
    let b = block(
        "image",
        vec![prop("src", "/tmp/logo.png", true), prop("w", "2in", true), prop("h", "1in", true)],
        Body::Empty,
        false,
    );
    let mut ctx = ctx_with_png(5);
    let s = render_img(&b, &mut ctx);
    assert_eq!(ctx.images.len(), 1);
    assert_eq!(ctx.images[0].rid, "rId5");
    assert_eq!(ctx.images[0].zip_path, "word/media/image1.png");
    assert!(s.contains("<wp:inline"));
    assert!(s.contains(r#"r:embed="rId5""#));
    assert!(s.contains(r#"cx="1828800""#));
    assert!(s.contains(r#"cy="914400""#));
}

#[test]
fn anchored_image_emits_wp_anchor_with_position() {
    let b = block(
        "image",
        vec![prop("src", "/tmp/logo.png", true), prop("float", "anchor", true)],
        Body::Empty,
        false,
    );
    let mut ctx = ctx_with_png(5);
    let s = render_img(&b, &mut ctx);
    assert!(s.contains("<wp:anchor"));
    assert!(s.contains(r#"<wp:positionH relativeFrom="page">"#));
    assert!(s.contains(r#"<wp:positionV relativeFrom="page">"#));
    assert!(s.contains(r#"behindDoc="0""#));
}

#[test]
#[allow(non_snake_case)]
fn behind_image_sets_behindDoc_1() {
    let b = block(
        "image",
        vec![prop("src", "/tmp/logo.png", true), prop("float", "behind", true)],
        Body::Empty,
        false,
    );
    let mut ctx = ctx_with_png(1);
    let s = render_img(&b, &mut ctx);
    assert!(s.contains(r#"behindDoc="1""#));
}

#[test]
fn caption_property_emits_caption_paragraph_below() {
    let b = block(
        "image",
        vec![prop("src", "/tmp/logo.png", true), prop("caption", "Cover logo", true)],
        Body::Empty,
        false,
    );
    let mut ctx = ctx_with_png(1);
    let s = render_img(&b, &mut ctx);
    let img = s.find("<w:drawing").unwrap();
    let cap = s.find(r#"<w:pStyle w:val="Caption"/>"#).unwrap();
    assert!(img < cap);
    assert!(s.contains("Cover logo"));
    assert!(s.contains(r#"w:name="_Toc_figure_1""#));
}

#[test]
fn detect_ext_uses_magic_bytes_when_no_suffix() {
    let png = make_png();
    assert_eq!(detect_ext(None, &png), "png");
    let jpeg_magic: &[u8] = &[0xFF, 0xD8, 0xFF, 0xE0];
    assert_eq!(detect_ext(None, jpeg_magic), "jpeg");
}

#[test]
fn detect_ext_prefers_known_suffix() {
    assert_eq!(detect_ext(Some("GIF"), &make_png()), "gif");
    assert_eq!(detect_ext(Some("jpg"), &[]), "jpeg");
}

#[test]
fn parse_length_handles_pt_in_cm_px() {
    assert_eq!(parse_length_to_emu("72pt"), Some(72 * EMU_PER_PT));
    assert_eq!(parse_length_to_emu("1in"), Some(EMU_PER_INCH));
    assert_eq!(parse_length_to_emu("2.54cm"), Some((2.54 * EMU_PER_CM as f64).round() as u32));
    assert_eq!(parse_length_to_emu("96px"), Some(96 * EMU_PER_PX));
    assert_eq!(parse_length_to_emu("96"), Some(96 * EMU_PER_PX));
    assert_eq!(parse_length_to_emu("50%"), None);
}

// ---------------------------------------------------------------- fields

#[test]
fn page_simple_field_emits_with_preserved_instr() {
    let mut x = XmlBuf::new();
    render_page(&mut x);
    let s = x.finish();
    assert!(s.starts_with(r#"<w:fldSimple w:instr=" PAGE   \* MERGEFORMAT "#), "got: {s}");
    assert!(s.contains(r#"<w:t xml:space="preserve">1</w:t>"#));
}

#[test]
fn numpages_simple_field_emits() {
    let mut x = XmlBuf::new();
    render_num_pages(&mut x);
    let s = x.finish();
    assert!(s.contains(" NUMPAGES "));
}

#[test]
fn seq_emits_correct_instr_and_displayed_number() {
    let mut x = XmlBuf::new();
    render_seq("Table", 3, &mut x);
    let s = x.finish();
    assert!(s.contains(r#"w:instr=" SEQ Table \* ARABIC ""#));
    assert!(s.contains(r#"<w:t xml:space="preserve">3</w:t>"#));
}

#[test]
fn complex_field_emits_begin_instr_separate_end_in_order() {
    let mut inner = XmlBuf::new();
    inner.open("w:r", &[]);
    inner.elem_text("w:t", &[], "see TOC", false);
    inner.close("w:r");
    let result = inner.finish();
    let mut x = XmlBuf::new();
    render_complex(" TOC \\h \\z ", &mut x, &result);
    let s = x.finish();
    let begin = s.find(r#"w:fldCharType="begin""#).unwrap();
    let instr = s.find("<w:instrText").unwrap();
    let sep = s.find(r#"w:fldCharType="separate""#).unwrap();
    let res = s.find("see TOC").unwrap();
    let end = s.find(r#"w:fldCharType="end""#).unwrap();
    assert!(begin < instr && instr < sep && sep < res && res < end);
    assert!(s.contains(r#"<w:instrText xml:space="preserve""#), "got: {s}");
}

#[test]
fn page_ref_emits_complex_with_bookmark_in_instr() {
    let mut x = XmlBuf::new();
    render_page_ref("_Toc1", "5", &mut x);
    let s = x.finish();
    assert!(s.contains("PAGEREF _Toc1"));
    assert!(s.contains(r#"<w:t xml:space="preserve">5</w:t>"#));
}

// ---------------------------------------------------------------- links

fn first_link(b: &Block) -> &Block {
    match &b.body {
        Body::Text(pieces) => pieces
            .iter()
            .find_map(|p| match p {
                TextPiece::Inline(blk) if blk.name == "link" => Some(blk),
                _ => None,
            })
            .unwrap(),
        _ => panic!(),
    }
}

#[test]
fn parse_target_recognizes_ref_and_hash() {
    match parse_target("ref://_Toc_1") {
        LinkTarget::Anchor(s) => assert_eq!(s, "_Toc_1"),
        _ => panic!("expected anchor"),
    }
    match parse_target("#bm") {
        LinkTarget::Anchor(s) => assert_eq!(s, "bm"),
        _ => panic!("expected anchor"),
    }
    match parse_target("https://example.org") {
        LinkTarget::External(s) => assert_eq!(s, "https://example.org"),
        _ => panic!("expected external"),
    }
}

#[test]
fn external_link_registers_rid_and_emits_w_hyperlink() {
    let b = para(vec![
        lit("visit "),
        inline("link", vec![prop("to", "https://example.org", true)], vec![lit("click")]),
        lit(" please"),
    ]);
    let link = first_link(&b);
    let mut ctx = EmitCtx::new(None, 7);
    let mut x = XmlBuf::new();
    render_link(link, &mut ctx, &RPr::default(), &mut x);
    let s = x.finish();
    assert_eq!(ctx.hyperlinks.len(), 1);
    assert_eq!(ctx.hyperlinks[0].rid, "rId7");
    assert_eq!(ctx.hyperlinks[0].url, "https://example.org");
    assert!(s.contains(r#"<w:hyperlink r:id="rId7""#));
    assert!(s.contains(r#"<w:rStyle w:val="Hyperlink"/>"#));
    assert!(s.contains("click"));
}

#[test]
fn anchor_link_emits_w_anchor_without_rel() {
    let b = para(vec![
        lit("see "),
        inline("link", vec![prop("to", "ref://_Toc_1", true)], vec![lit("Section 1")]),
    ]);
    let link = first_link(&b);
    let mut ctx = EmitCtx::new(None, 7);
    let mut x = XmlBuf::new();
    render_link(link, &mut ctx, &RPr::default(), &mut x);
    let s = x.finish();
    assert!(ctx.hyperlinks.is_empty());
    assert!(s.contains(r#"<w:hyperlink w:anchor="_Toc_1""#));
}

#[test]
fn external_links_dedupe_by_url() {
    let mut ctx = EmitCtx::new(None, 1);
    let r1 = ctx.add_external_link("https://example.org");
    let r2 = ctx.add_external_link("https://example.org");
    let r3 = ctx.add_external_link("https://other.org");
    assert_eq!(r1, r2);
    assert_ne!(r1, r3);
    assert_eq!(ctx.hyperlinks.len(), 2);
}

#[test]
fn bookmark_emits_start_and_end_with_matching_ids() {
    let mut ctx = EmitCtx::new(None, 1);
    let mut inner = XmlBuf::new();
    inner.open("w:r", &[]);
    inner.elem_text("w:t", &[], "Introduction", false);
    inner.close("w:r");
    let inner = inner.finish();
    let mut x = XmlBuf::new();
    render_bookmark("_Toc_intro", &mut ctx, &mut x, &inner);
    let s = x.finish();
    assert!(s.contains(r#"<w:bookmarkStart w:id="1" w:name="_Toc_intro"/>"#));
    assert!(s.contains(r#"<w:bookmarkEnd w:id="1"/>"#));
    let start = s.find("bookmarkStart").unwrap();
    let intro = s.find("Introduction").unwrap();
    let end = s.find("bookmarkEnd").unwrap();
    assert!(start < intro && intro < end);
}

#[test]
fn empty_external_link_falls_back_to_url_text() {
    let b = para(vec![TextPiece::Inline(block(
        "link",
        vec![prop("to", "https://example.org", true)],
        Body::Empty,
        true,
    ))]);
    let link = first_link(&b);
    let mut ctx = EmitCtx::new(None, 7);
    let mut x = XmlBuf::new();
    render_link(link, &mut ctx, &RPr::default(), &mut x);
    let s = x.finish();
    assert!(s.contains("https://example.org"));
}

// ---------------------------------------------------------------- runs

#[test]
fn empty_body_renders_nothing() {
    assert_eq!(render_runs(&para(vec![])), "");
}

#[test]
fn plain_literal_emits_single_run_with_preserve() {
    let s = render_runs(&para(vec![lit("hello")]));
    assert_eq!(s, r#"<w:r><w:t xml:space="preserve">hello</w:t></w:r>"#);
}

#[test]
#[allow(non_snake_case)]
fn text_weight_bold_emits_w_b_and_bCs() {
    let s = render_runs(&para(vec![
        lit("plain "),
        inline("text", vec![prop("weight", "bold", false)], vec![lit("bold")]),
        lit(" tail"),
    ]));
    assert_eq!(s.matches("<w:r>").count(), 3);
    assert!(s.contains("<w:rPr><w:b/><w:bCs/></w:rPr>"));
    assert!(s.starts_with(r#"<w:r><w:t xml:space="preserve">plain </w:t></w:r>"#));
}

#[test]
#[allow(non_snake_case)]
fn text_style_italic_emits_w_i_and_iCs() {
    let s = render_runs(&para(vec![inline("text", vec![prop("style", "italic", false)], vec![lit("em")])]));
    assert!(s.contains("<w:i/>"));
    assert!(s.contains("<w:iCs/>"));
}

#[test]
fn text_decoration_strike_emits_w_strike() {
    let s =
        render_runs(&para(vec![inline("text", vec![prop("decoration", "strike", false)], vec![lit("del")])]));
    assert!(s.contains("<w:strike/>"));
}

#[test]
fn text_decoration_underline_emits_w_u_single() {
    let s =
        render_runs(&para(vec![inline("text", vec![prop("decoration", "underline", false)], vec![lit("u")])]));
    assert!(s.contains(r#"<w:u w:val="single"/>"#));
}

#[test]
fn text_color_emits_w_color_uppercase() {
    let s = render_runs(&para(vec![inline("text", vec![prop("color", "#ff0000", true)], vec![lit("red")])]));
    assert!(s.contains(r#"<w:color w:val="FF0000"/>"#), "got: {s}");
}

#[test]
fn code_emits_courier_new_rfonts() {
    let s = render_runs(&para(vec![lit("see "), inline("code", Vec::new(), vec![lit("fn()")]), lit(" here")]));
    assert!(s.contains(r#"<w:rFonts w:ascii="Courier New" w:hAnsi="Courier New"/>"#), "got: {s}");
}

#[test]
fn nested_inlines_stack_rpr() {
    let s = render_runs(&para(vec![inline(
        "text",
        vec![prop("weight", "bold", false)],
        vec![lit("b "), inline("text", vec![prop("style", "italic", false)], vec![lit("both")])],
    )]));
    let b_run = s.find(r#"<w:t xml:space="preserve">b </w:t>"#).unwrap();
    let b_run_start = s[..b_run].rfind("<w:r>").unwrap();
    let b_block = &s[b_run_start..b_run];
    assert!(b_block.contains("<w:b/>"));
    assert!(!b_block.contains("<w:i/>"));
    let both = s.find(r#"<w:t xml:space="preserve">both</w:t>"#).unwrap();
    let both_start = s[..both].rfind("<w:r>").unwrap();
    let both_block = &s[both_start..both];
    assert!(both_block.contains("<w:b/>") && both_block.contains("<w:i/>"));
}

#[test]
fn link_emits_w_hyperlink_with_hyperlink_style() {
    let s = render_runs(&para(vec![
        lit("visit "),
        inline("link", vec![prop("to", "https://x", true)], vec![lit("this site")]),
        lit(" please"),
    ]));
    assert!(s.contains("<w:hyperlink "));
    assert!(s.contains(r#"<w:rStyle w:val="Hyperlink"/>"#));
    assert!(s.contains("this site"));
}

#[test]
fn footnote_inline_emits_reference_run_and_captures_text() {
    let b = para(vec![lit("see "), inline("footnote", Vec::new(), vec![lit("foo body")]), lit(" end")]);
    let mut ctx = EmitCtx::new(None, 1);
    let mut x = XmlBuf::new();
    render_body(&b, &mut ctx, &mut x);
    let s = x.finish();
    assert!(s.contains("see "));
    assert!(s.contains(" end"));
    assert!(s.contains(r#"<w:footnoteReference w:id="1"/>"#));
    assert!(s.contains(r#"<w:rStyle w:val="FootnoteReference"/>"#));
    assert_eq!(ctx.footnotes.len(), 1);
    assert_eq!(ctx.footnotes[0].id, 1);
    assert_eq!(ctx.footnotes[0].text, "foo body");
}

#[test]
#[allow(non_snake_case)]
fn page_number_inline_emits_PAGE_field() {
    let s = render_runs(&para(vec![
        lit("Page "),
        inline("page-number", Vec::new(), vec![]),
        lit(" of "),
        inline("total-pages", Vec::new(), vec![]),
    ]));
    assert!(s.contains(r#"w:instr=" PAGE   \* MERGEFORMAT ""#));
    assert!(s.contains(r#"w:instr=" NUMPAGES   \* MERGEFORMAT ""#));
}

#[test]
fn rpr_child_order_is_canonical() {
    let r = RPr {
        r_style: Some("Hyperlink".into()),
        font_face: Some("Courier New".into()),
        bold: true,
        italic: true,
        strike: true,
        color: Some("0563C1".into()),
        size_hp: Some(22),
        highlight: Some("yellow".into()),
        shading_fill: Some("FFFF00".into()),
        underline: Some("single".into()),
    };
    let mut x = XmlBuf::new();
    r.render(&mut x);
    let s = x.finish();
    let positions = [
        ("<w:rStyle", s.find("<w:rStyle").unwrap()),
        ("<w:rFonts", s.find("<w:rFonts").unwrap()),
        ("<w:b/>", s.find("<w:b/>").unwrap()),
        ("<w:i/>", s.find("<w:i/>").unwrap()),
        ("<w:strike/>", s.find("<w:strike/>").unwrap()),
        ("<w:color", s.find("<w:color").unwrap()),
        ("<w:sz ", s.find("<w:sz ").unwrap()),
        ("<w:highlight", s.find("<w:highlight").unwrap()),
        ("<w:shd ", s.find("<w:shd ").unwrap()),
        ("<w:u ", s.find("<w:u ").unwrap()),
    ];
    for win in positions.windows(2) {
        assert!(win[0].1 < win[1].1, "{} not before {}", win[0].0, win[1].0);
    }
}

#[test]
fn page_break_emits_w_br() {
    let mut x = XmlBuf::new();
    render_page_break(&mut x);
    assert_eq!(x.finish(), r#"<w:r><w:br w:type="page"/></w:r>"#);
}

// ---------------------------------------------------------------- toc

#[test]
fn parse_levels_accepts_range_single_and_default() {
    assert_eq!(parse_levels(None), (1, 3));
    assert_eq!(parse_levels(Some("2")), (1, 2));
    assert_eq!(parse_levels(Some("1-3")), (1, 3));
    assert_eq!(parse_levels(Some("2-5")), (2, 5));
    assert_eq!(parse_levels(Some("invalid")), (1, 3));
}
