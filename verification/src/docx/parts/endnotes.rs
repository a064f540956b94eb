//! `word/endnotes.xml` — sibling to `footnotes.xml`. Word's settings
//! reference the two placeholder endnote ids (-1 and 0), so the part has
//! to exist; it always carries the separator boilerplate.

use vstd::prelude::*;

use crate::docx::xml::{
    attr1, attr2, element, element_ns, empty_tag, group_concat, no_attrs, ns_views,
    xml_declaration, Ns, XmlBuf,
};

use super::web_settings::ns_w;

verus! {

broadcast use group_concat;

/// A separator note: `<w:TAG w:type="kind" w:id="id"><w:p><w:r><w:MARK/></w:r></w:p></w:TAG>`.
pub open spec fn separator_note(tag: Seq<char>, kind: Seq<char>, id: Seq<char>, mark: Seq<char>) -> Seq<char> {
    element(
        tag,
        attr2("w:type"@, kind, "w:id"@, id),
        element("w:p"@, no_attrs(), element("w:r"@, no_attrs(), empty_tag(mark, no_attrs()))),
    )
}

/// The two boilerplate separator notes of a notes part.
pub open spec fn separators(tag: Seq<char>) -> Seq<char> {
    separator_note(tag, "separator"@, "-1"@, "w:separator"@) + separator_note(
        tag,
        "continuationSeparator"@,
        "0"@,
        "w:continuationSeparator"@,
    )
}

/// The whole part.
pub open spec fn endnotes_xml() -> Seq<char> {
    xml_declaration() + element_ns(
        "w:endnotes"@,
        seq![("w"@, ns_w())],
        no_attrs(),
        separators("w:endnote"@),
    )
}

/// Emit one separator note.
pub(crate) fn separator_note_into(tag: &str, kind: &str, id: &str, mark: &str, x: &mut XmlBuf)
    ensures
        final(x)@ == old(x)@ + separator_note(tag@, kind@, id@, mark@),
{
    x.open2(tag, "w:type", kind, "w:id", id);
    x.open0("w:p");
    x.open0("w:r");
    x.empty0(mark);
    x.close("w:r");
    x.close("w:p");
    x.close(tag);
}

/// Emit the two separator notes.
pub(crate) fn separators_into(tag: &str, x: &mut XmlBuf)
    ensures
        final(x)@ == old(x)@ + separators(tag@),
{
    separator_note_into(tag, "separator", "-1", "w:separator", x);
    separator_note_into(tag, "continuationSeparator", "0", "w:continuationSeparator", x);
}

/// The root namespace list `[w]`.
pub(crate) fn open_root_w(root: &str, x: &mut XmlBuf)
    ensures
        final(x)@ == old(x)@ + crate::docx::xml::open_tag(
            root@,
            seq![("w"@, ns_w())],
            no_attrs(),
            false,
        ),
{
    let nss = [Ns { prefix: "w", uri: "http://schemas.openxmlformats.org/wordprocessingml/2006/main" }];
    let a: &[(&str, &str)] = &[];
    proof {
        assert(ns_views(nss@) =~= seq![("w"@, ns_w())]);
        assert(crate::docx::xml::attr_views(a@) =~= no_attrs());
    }
    x.open_with_ns(root, &nss, a);
}

pub fn endnotes() -> (s: String)
    ensures
        s@ == endnotes_xml(),
{
    let mut x = XmlBuf::new();
    x.xml_decl();
    open_root_w("w:endnotes", &mut x);
    separators_into("w:endnote", &mut x);
    x.close("w:endnotes");
    x.finish()
}

} // verus!
