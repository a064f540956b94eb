//! `word/webSettings.xml` — settings used when Word renders to web
//! preview. Only three flags matter, all bare markers.

use vstd::prelude::*;

use crate::docx::xml::{
    attr1, element, empty_tag, group_concat, no_attrs, xml_declaration, XmlBuf,
};

verus! {

broadcast use group_concat;

pub open spec fn ns_w() -> Seq<char> {
    "http://schemas.openxmlformats.org/wordprocessingml/2006/main"@
}

/// The whole part.
pub open spec fn web_settings_xml() -> Seq<char> {
    xml_declaration() + element(
        "w:webSettings"@,
        attr1("xmlns:w"@, ns_w()),
        empty_tag("w:optimizeForBrowser"@, no_attrs()) + empty_tag("w:relyOnVML"@, no_attrs())
            + empty_tag("w:allowPNG"@, no_attrs()),
    )
}

pub fn web_settings() -> (s: String)
    ensures
        s@ == web_settings_xml(),
{
    let mut x = XmlBuf::new();
    x.xml_decl();
    x.open1("w:webSettings", "xmlns:w", "http://schemas.openxmlformats.org/wordprocessingml/2006/main");
    x.empty0("w:optimizeForBrowser");
    x.empty0("w:relyOnVML");
    x.empty0("w:allowPNG");
    x.close("w:webSettings");
    x.finish()
}

} // verus!
