use stem::ast_v2::{Block, Body, PropertyValue, TextPiece};
use stem::span::{Pos, Span};

fn span(line: u32, col: u32) -> Span {
    Span::new(Pos::new(0, line, col), Pos::new(0, line, col))
}

#[test]
fn block_no_body_constructs() {
    let b = Block {
        name: "pagebreak".into(),
        name_span: span(1, 1),
        properties: Vec::new(),
        body: Body::Empty,
        inline_form: false,
        span: span(1, 1),
    };
    assert!(b.body.is_none());
    assert!(b.plain_text().is_none());
}

#[test]
fn block_text_body_plain_text() {
    let b = Block {
        name: "p".into(),
        name_span: span(1, 1),
        properties: Vec::new(),
        body: Body::Text(vec![TextPiece::Literal { text: "hello".into(), span: span(1, 3) }]),
        inline_form: false,
        span: span(1, 1),
    };
    assert_eq!(b.plain_text().as_deref(), Some("hello"));
}

#[test]
fn block_text_body_with_inline_no_plain_text() {
    let inline_block = Block {
        name: "text".into(),
        name_span: span(1, 10),
        properties: Vec::new(),
        body: Body::Text(vec![TextPiece::Literal { text: "red".into(), span: span(1, 15) }]),
        inline_form: true,
        span: span(1, 10),
    };
    let outer = Block {
        name: "p".into(),
        name_span: span(1, 1),
        properties: Vec::new(),
        body: Body::Text(vec![
            TextPiece::Literal { text: "the ".into(), span: span(1, 3) },
            TextPiece::Inline(inline_block),
        ]),
        inline_form: false,
        span: span(1, 1),
    };
    assert!(outer.plain_text().is_none());
}

#[test]
fn property_value_coercions() {
    let v = PropertyValue::Bare("42".into());
    assert_eq!(v.as_str(), "42");
    assert_eq!(v.as_i64(), Some(42));
    assert_eq!(v.as_bool(), None);

    let v = PropertyValue::Quoted("yes".into());
    assert_eq!(v.as_bool(), Some(true));
    assert!(v.was_quoted());
}
