use stem::ast_v2::{Block, Body, Document, Metadata, Property, PropertyValue, TextPiece};
use stem::html::{BodyTextPieces, HtmlExporter};
use stem::span::{Pos, Span};
use stem::theme::Theme;

fn sp() -> Span {
    Span::new(Pos::new(0, 1, 1), Pos::new(0, 1, 1))
}

fn block(name: &str, body: Body) -> Block {
    Block { name: name.into(), name_span: sp(), properties: vec![], body, inline_form: false, span: sp() }
}

fn lit(s: &str) -> TextPiece {
    TextPiece::Literal { text: s.into(), span: sp() }
}

fn doc(props: Vec<(&str, &str)>, blocks: Vec<Block>) -> Document {
    Document {
        metadata: Metadata {
            span: sp(),
            properties: props
                .into_iter()
                .map(|(k, v)| Property { key: k.into(), key_span: sp(), value: PropertyValue::Quoted(v.into()), value_span: sp() })
                .collect(),
        },
        blocks,
    }
}

#[test]
fn fragment_wraps_blocks_in_stem_doc_div() {
    let d = doc(vec![], vec![block("p", Body::Text(vec![lit("a < b")]))]);
    let s = HtmlExporter::fragment().render_document(&d, &Theme::default());
    assert_eq!(s, "<div class=\"stem-doc\">\n<div data-stem=\"p\">\na &lt; b</div>\n</div>\n");
}

#[test]
fn inline_elements_become_tagged_spans() {
    let inline = Block {
        name: "text".into(),
        name_span: sp(),
        properties: vec![],
        body: Body::Text(vec![lit("x & y")]),
        inline_form: true,
        span: sp(),
    };
    let d = doc(vec![], vec![block("p", Body::Text(vec![lit("see "), TextPiece::Inline(inline)]))]);
    let s = HtmlExporter::fragment().render_document(&d, &Theme::default());
    assert!(s.contains("see <span data-stem=\"text\">x &amp; y</span>"), "{s}");
}

#[test]
fn children_render_in_order() {
    let d = doc(
        vec![],
        vec![block("section", Body::Children(vec![block("a", Body::Empty), block("b", Body::Empty)]))],
    );
    let s = HtmlExporter::fragment().render_document(&d, &Theme::default());
    assert_eq!(
        s,
        "<div class=\"stem-doc\">\n<div data-stem=\"section\">\n<div data-stem=\"a\">\n</div>\n<div data-stem=\"b\">\n</div>\n</div>\n</div>\n"
    );
}

#[test]
fn full_document_has_head_title_and_locale() {
    let d = doc(vec![("locale", "de\"x"), ("title", "A & B")], vec![]);
    let s = HtmlExporter::new().render_document(&d, &Theme::default());
    assert!(s.starts_with("<!doctype html>\n<html lang=\"de&quot;x\">\n<head>\n"), "{s}");
    assert!(s.contains("<title>A &amp; B</title>\n"));
    assert!(s.contains("<style>body{font-family:"));
    assert!(s.ends_with("</div>\n</body>\n</html>\n"));
}

#[test]
fn full_document_defaults_locale_to_en() {
    let d = doc(vec![], vec![]);
    let s = HtmlExporter::new().render_document(&d, &Theme::default());
    assert!(s.contains("<html lang=\"en\">"));
    assert!(!s.contains("<title>"));
}

#[test]
fn body_text_pieces_keeps_literals_in_order() {
    let inner = block("text", Body::Text(vec![lit("skipped")]));
    let b = block("p", Body::Text(vec![lit("a"), TextPiece::Inline(inner), lit("b")]));
    assert_eq!(b.body_text_pieces(), vec!["a".to_string(), "b".to_string()]);
    assert!(block("hr", Body::Empty).body_text_pieces().is_empty());
}
