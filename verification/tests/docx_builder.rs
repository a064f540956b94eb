use stem::ast_v2::{Block, Body, Document, Metadata, Property, PropertyValue, TextPiece};
use stem::docx::emit::table::BorderMode;
use stem::docx_builder::{
    blocks_ok_exec, layout_blocks, numbering_levels, table_ok_exec, Align, CellSpec, DocxError,
    DocxExporter, Item, ParaSpec, VAlign,
};
use stem::span::{Pos, Span};
use stem::theme::{Theme, ThemeColor};

fn sp() -> Span {
    Span::new(Pos::new(0, 1, 1), Pos::new(0, 1, 1))
}

fn prop(k: &str, v: &str) -> Property {
    Property { key: k.into(), key_span: sp(), value: PropertyValue::Bare(v.into()), value_span: sp() }
}

fn block(name: &str, props: Vec<Property>, body: Body) -> Block {
    Block { name: name.into(), name_span: sp(), properties: props, body, inline_form: false, span: sp() }
}

fn lit(text: &str) -> TextPiece {
    TextPiece::Literal { text: text.into(), span: sp() }
}

fn tb(name: &str, props: Vec<Property>, text: &str) -> Block {
    block(name, props, Body::Text(vec![lit(text)]))
}

fn cb(name: &str, props: Vec<Property>, kids: Vec<Block>) -> Block {
    block(name, props, Body::Children(kids))
}

fn doc(blocks: Vec<Block>) -> Document {
    Document { metadata: Metadata { span: sp(), properties: Vec::new() }, blocks }
}

fn para(item: &Item) -> &ParaSpec {
    match item {
        Item::Para(p) => p,
        Item::Table { .. } => panic!("expected a paragraph"),
    }
}

fn texts(p: &ParaSpec) -> Vec<String> {
    p.runs.iter().map(|r| r.text.clone()).collect()
}

#[test]
fn headings_map_to_heading_styles() {
    let blocks = vec![tb("h1", vec![], "Title"), tb("h6", vec![], "Deep")];
    let items = layout_blocks(&blocks, &Theme::default());
    assert_eq!(items.len(), 2);
    assert_eq!(para(&items[0]).style.as_deref(), Some("Heading1"));
    assert_eq!(para(&items[1]).style.as_deref(), Some("Heading6"));
    assert_eq!(texts(para(&items[0])), vec!["Title".to_string()]);
}

#[test]
fn inline_text_styles_make_styled_runs() {
    let bold = tb("text", vec![prop("weight", "bold")], "strong");
    let code = tb("code", vec![], "x");
    let p = block(
        "p",
        vec![],
        Body::Text(vec![lit("a "), TextPiece::Inline(bold), lit(" "), TextPiece::Inline(code)]),
    );
    let items = layout_blocks(&vec![p], &Theme::default());
    let p = para(&items[0]);
    assert_eq!(texts(p), vec!["a ", "strong", " ", "x"]);
    assert!(!p.runs[0].style.bold);
    assert!(p.runs[1].style.bold);
    assert!(p.runs[3].style.monospace);
    assert!(!p.runs[3].style.bold);
}

#[test]
fn blockquote_is_indented_and_italic() {
    let items = layout_blocks(&vec![tb("blockquote", vec![], "quoted")], &Theme::default());
    let p = para(&items[0]);
    assert_eq!(p.indent_left, Some(720));
    assert!(p.runs[0].style.italic);
}

#[test]
fn code_block_is_one_monospace_paragraph_per_line() {
    let items = layout_blocks(&vec![tb("code", vec![], "let a = 1;\nlet b = 2;")], &Theme::default());
    assert_eq!(items.len(), 2);
    assert_eq!(texts(para(&items[0])), vec!["let a = 1;"]);
    assert_eq!(texts(para(&items[1])), vec!["let b = 2;"]);
    assert!(para(&items[1]).runs[0].style.monospace);
}

#[test]
fn lists_use_decimal_and_bullet_numberings() {
    let ol = cb("ol", vec![], vec![tb("li", vec![], "one"), tb("li", vec![], "two")]);
    let ul = cb("ul", vec![], vec![tb("li", vec![], "dot")]);
    let items = layout_blocks(&vec![ol, ul], &Theme::default());
    assert_eq!(items.len(), 3);
    assert_eq!(para(&items[0]).list, Some(1));
    assert_eq!(para(&items[1]).list, Some(1));
    assert_eq!(para(&items[2]).list, Some(2));
    assert_eq!(texts(para(&items[1])), vec!["two"]);
}

#[test]
fn rule_and_unknown_blocks() {
    let items = layout_blocks(&vec![block("hr", vec![], Body::Empty), tb("aside", vec![], "x")], &Theme::default());
    assert_eq!(texts(para(&items[0])), vec!["───"]);
    assert_eq!(para(&items[1]).style, None);
    assert_eq!(texts(para(&items[1])), vec!["x"]);
}

#[test]
fn table_with_caption_header_stripes_and_spans() {
    let table = cb(
        "table",
        vec![prop("border", "outer"), prop("stripe", "true"), prop("caption", "Totals")],
        vec![
            cb("row", vec![prop("kind", "header")], vec![tb("cell", vec![], "A"), tb("cell", vec![], "B")]),
            cb(
                "row",
                vec![],
                vec![tb("cell", vec![prop("rowspan", "2"), prop("valign", "middle")], "tall"), tb("cell", vec![], "x")],
            ),
            cb("row", vec![], vec![tb("cell", vec![prop("align", "right"), prop("bg", "red")], "y")]),
        ],
    );
    assert!(table_ok_exec(&table));
    let items = layout_blocks(&vec![table], &Theme::default());
    assert_eq!(items.len(), 2);
    let cap = para(&items[0]);
    assert_eq!(cap.style.as_deref(), Some("Caption"));
    assert_eq!(texts(cap), vec!["Totals"]);
    let (border, rows) = match &items[1] {
        Item::Table { border, rows } => (*border, rows),
        _ => panic!("expected a table"),
    };
    assert!(border == BorderMode::Outer);
    assert_eq!(rows.len(), 3);
    // Header row: bold runs, no fill.
    match &rows[0].cells[0] {
        CellSpec::Source { para, fill, .. } => {
            assert!(para.runs[0].style.bold);
            assert_eq!(*fill, None);
        },
        _ => panic!("expected a source cell"),
    }
    // First body row: a vertical merge starts, centered vertically.
    match &rows[1].cells[0] {
        CellSpec::Source { valign, restart, grid_span, fill, .. } => {
            assert!(*restart);
            assert!(*valign == Some(VAlign::Center));
            assert_eq!(*grid_span, None);
            assert_eq!(*fill, None);
        },
        _ => panic!("expected a source cell"),
    }
    // Second body row: the merge continues, then the striped cell takes
    // the stripe fill over its own `bg`.
    assert_eq!(rows[2].cells.len(), 2);
    match &rows[2].cells[0] {
        CellSpec::Continue { grid_span } => assert_eq!(*grid_span, 1),
        _ => panic!("expected a continuation"),
    }
    match &rows[2].cells[1] {
        CellSpec::Source { para, fill, .. } => {
            assert!(para.align == Some(Align::Right));
            assert_eq!(fill.as_deref(), Some("F2F2F2"));
        },
        _ => panic!("expected a source cell"),
    }
}

#[test]
fn cell_fill_from_theme_color_without_hash() {
    let table = cb(
        "table",
        vec![],
        vec![cb("row", vec![], vec![tb("cell", vec![prop("bg", "red"), prop("colspan", "3")], "r")])],
    );
    let items = layout_blocks(&vec![table], &Theme::default());
    match &items[0] {
        Item::Table { border, rows } => {
            assert!(*border == BorderMode::Hidden);
            match &rows[0].cells[0] {
                CellSpec::Source { fill, grid_span, .. } => {
                    assert_eq!(fill.as_deref(), Some("CF222E"));
                    assert_eq!(*grid_span, Some(3));
                },
                _ => panic!("expected a source cell"),
            }
        },
        _ => panic!("expected a table"),
    }
}

#[test]
fn table_without_children_is_only_its_caption() {
    let t = tb("table", vec![prop("caption", "Empty")], "");
    let items = layout_blocks(&vec![t], &Theme::default());
    assert_eq!(items.len(), 1);
    assert_eq!(para(&items[0]).style.as_deref(), Some("Caption"));
}

#[test]
fn numbering_levels_decimal_and_bullet() {
    let d = numbering_levels(false);
    assert_eq!(d.len(), 9);
    assert_eq!(d[0].text, "%1.");
    assert_eq!(d[2].text, "%3.");
    assert_eq!(d[2].format, "decimal");
    assert_eq!(d[2].left, 2160);
    assert_eq!(d[8].left, 6480);
    assert_eq!(d[8].hanging, 360);
    let b = numbering_levels(true);
    assert_eq!(b[4].text, "•");
    assert_eq!(b[4].format, "bullet");
    assert_eq!(b[4].level, 4);
}

#[test]
fn hex_fill_accepts_only_six_hex_digits() {
    let t = Theme::default();
    assert_eq!(t.resolve_color("#FF0000"), Some(ThemeColor::rgb(255, 0, 0)));
    assert_eq!(t.resolve_color("#+f+f+f"), None);
    assert_eq!(t.resolve_color("#aébbb"), None);
    assert_eq!(t.resolve_color("#fff"), None);
    // A `bg` that is no color leaves the cell unfilled.
    let mk = || {
        cb("table", vec![], vec![cb("row", vec![], vec![tb("cell", vec![prop("bg", "#aébbb")], "x")])])
    };
    let table = mk();
    assert!(table_ok_exec(&table));
    assert!(blocks_ok_exec(&vec![mk(), tb("p", vec![], "fine")]));
    let items = layout_blocks(&vec![table], &t);
    match &items[0] {
        Item::Table { rows, .. } => match &rows[0].cells[0] {
            CellSpec::Source { fill, .. } => assert_eq!(*fill, None),
            _ => panic!("expected a source cell"),
        },
        _ => panic!("expected a table"),
    }
}

#[test]
fn export_packs_a_zip() {
    let d = doc(vec![
        tb("h1", vec![], "Title"),
        cb("ol", vec![], vec![tb("li", vec![], "one")]),
        cb("table", vec![prop("border", "all")], vec![cb("row", vec![], vec![tb("cell", vec![], "c")])]),
    ]);
    let bytes = match DocxExporter::new().export(&d, &Theme::default()) {
        Ok(b) => b,
        Err(e) => panic!("{}", e.message()),
    };
    assert!(bytes.len() > 4);
    assert_eq!(&bytes[..2], b"PK");
}

#[test]
fn docx_error_message() {
    assert_eq!(DocxError::Pack("boom".into()).message(), "docx pack: boom");
}

#[test]
fn row_below_no_span_has_one_cell_per_source_cell() {
    let table = cb(
        "table",
        vec![],
        vec![cb(
            "row",
            vec![],
            vec![
                tb("cell", vec![prop("colspan", "2")], "a"),
                tb("cell", vec![], "b"),
                tb("note", vec![], "skipped"),
                tb("cell", vec![prop("valign", "bottom")], "c"),
            ],
        )],
    );
    let items = layout_blocks(&vec![table], &Theme::default());
    match &items[0] {
        Item::Table { rows, .. } => {
            assert_eq!(rows[0].cells.len(), 3);
            for c in &rows[0].cells {
                assert!(matches!(c, CellSpec::Source { .. }));
            }
            match &rows[0].cells[2] {
                CellSpec::Source { valign, para, .. } => {
                    assert!(*valign == Some(VAlign::Bottom));
                    assert_eq!(para.runs[0].text, "c");
                },
                _ => panic!("expected a source cell"),
            }
        },
        _ => panic!("expected a table"),
    }
}

#[test]
fn wide_rowspan_continues_with_its_width() {
    let table = cb(
        "table",
        vec![],
        vec![
            cb("row", vec![], vec![tb("cell", vec![prop("rowspan", "3"), prop("colspan", "2")], "tall")]),
            cb("row", vec![], vec![tb("cell", vec![], "x")]),
            cb("row", vec![], vec![]),
        ],
    );
    let items = layout_blocks(&vec![table], &Theme::default());
    match &items[0] {
        Item::Table { rows, .. } => {
            for r in 1..3 {
                match &rows[r].cells[0] {
                    CellSpec::Continue { grid_span } => assert_eq!(*grid_span, 2),
                    _ => panic!("expected a continuation"),
                }
            }
            assert_eq!(rows[1].cells.len(), 2);
            assert_eq!(rows[2].cells.len(), 1);
        },
        _ => panic!("expected a table"),
    }
}
