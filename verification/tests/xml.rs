use stem::docx::xml::{document, Ns, XmlBuf};
use stem::docx2::xml::{escape_attr, escape_text};

#[test]
fn empty_root_serializes() {
    let s = document("Types", &[Ns { prefix: "x", uri: "urn:test" }], "");
    assert!(s.starts_with("<?xml"));
    assert!(s.contains("<Types xmlns:x=\"urn:test\"></Types>"));
}

#[test]
fn nested_elements_emit_in_order() {
    let mut x = XmlBuf::new();
    x.open("w:pPr", &[]);
    x.empty("w:pStyle", &[("w:val", "Heading1")]);
    x.empty("w:rPr", &[]);
    x.close("w:pPr");
    let s = x.finish();
    let p = s.find("w:pStyle").unwrap();
    let r = s.find("w:rPr").unwrap();
    assert!(p < r, "got: {s}");
}

#[test]
fn text_escapes_specials() {
    let mut x = XmlBuf::new();
    x.elem_text("w:t", &[], "a < b & c > d", false);
    assert_eq!(x.finish(), "<w:t>a &lt; b &amp; c &gt; d</w:t>");
}

#[test]
fn attrs_escape_quotes_and_specials() {
    let mut x = XmlBuf::new();
    x.empty("a", &[("href", r#"http://x/?q=1&r="hi""#)]);
    assert_eq!(x.finish(), r#"<a href="http://x/?q=1&amp;r=&quot;hi&quot;"/>"#);
}

#[test]
fn preserve_attr_is_written_for_whitespace_runs() {
    let mut x = XmlBuf::new();
    x.elem_text("w:t", &[], " leading", true);
    assert_eq!(x.finish(), r#"<w:t xml:space="preserve"> leading</w:t>"#);
}

#[test]
fn raw_is_pasted_verbatim() {
    let mut x = XmlBuf::new();
    x.elem("w:p", &[], "<w:r><w:t>hi</w:t></w:r>");
    assert_eq!(x.finish(), "<w:p><w:r><w:t>hi</w:t></w:r></w:p>");
}

#[test]
fn raw_inside_open_close_is_verbatim() {
    let mut x = XmlBuf::new();
    x.open("w:p", &[]);
    x.raw("<w:r><w:t>hi</w:t></w:r>");
    x.close("w:p");
    assert_eq!(x.finish(), "<w:p><w:r><w:t>hi</w:t></w:r></w:p>");
}

#[test]
fn attr_order_is_preserved() {
    let mut x = XmlBuf::new();
    x.empty("w:pgMar", &[("w:top", "1440"), ("w:bottom", "1440")]);
    assert_eq!(x.finish(), r#"<w:pgMar w:top="1440" w:bottom="1440"/>"#);
}

#[test]
fn escape_text_handles_specials() {
    assert_eq!(escape_text("a < b & c > d"), "a &lt; b &amp; c &gt; d");
}

#[test]
fn escape_attr_handles_quotes() {
    assert_eq!(escape_attr(r#"he said "hi" & 'bye'"#), "he said &quot;hi&quot; &amp; &apos;bye&apos;");
}
