//! `word/settings.xml` — document-level Word settings: zoom, default tab
//! stop, character spacing control, the footnote/endnote placeholder
//! ids, and the Word 2013 compatibility block.

use vstd::prelude::*;

use crate::docx::xml::{
    attr1, attr3, element, empty_tag, end_tag, group_concat, no_attrs, start_tag, xml_declaration, XmlBuf,
};

use super::web_settings::ns_w;

verus! {

broadcast use group_concat;

/// One `<w:compatSetting>`.
pub open spec fn compat_setting(name: Seq<char>, val: Seq<char>) -> Seq<char> {
    empty_tag(
        "w:compatSetting"@,
        attr3("w:name"@, name, "w:uri"@, "http://schemas.microsoft.com/office/word"@, "w:val"@, val),
    )
}

/// The `<w:compat>` block.
pub open spec fn compat_xml() -> Seq<char> {
    element(
        "w:compat"@,
        no_attrs(),
        compat_setting("compatibilityMode"@, "15"@) + compat_setting(
            "overrideTableStyleFontSizeAndJustification"@,
            "1"@,
        ) + compat_setting("enableOpenTypeFeatures"@, "1"@) + compat_setting(
            "doNotFlipMirrorIndents"@,
            "1"@,
        ) + compat_setting("differentiateMultirowTableHeaders"@, "1"@),
    )
}

/// A `<w:footnotePr>`/`<w:endnotePr>` block with the -1/0 placeholders.
pub open spec fn note_pr(outer: Seq<char>, inner: Seq<char>) -> Seq<char> {
    element(
        outer,
        no_attrs(),
        empty_tag(inner, attr1("w:id"@, "-1"@)) + empty_tag(inner, attr1("w:id"@, "0"@)),
    )
}

/// The whole part; `even_and_odd` adds `<w:evenAndOddHeaders/>`.
pub open spec fn settings_xml(even_and_odd: bool) -> Seq<char> {
    xml_declaration() + element(
        "w:settings"@,
        attr1("xmlns:w"@, ns_w()),
        empty_tag("w:zoom"@, attr1("w:percent"@, "100"@)) + empty_tag(
            "w:defaultTabStop"@,
            attr1("w:val"@, "720"@),
        ) + empty_tag("w:characterSpacingControl"@, attr1("w:val"@, "doNotCompress"@)) + (if even_and_odd {
            empty_tag("w:evenAndOddHeaders"@, no_attrs())
        } else {
            Seq::empty()
        }) + note_pr("w:footnotePr"@, "w:footnote"@) + note_pr("w:endnotePr"@, "w:endnote"@)
            + compat_xml(),
    )
}

/// The settings for even and odd headers are the plain settings with
/// `<w:evenAndOddHeaders/>` inserted right after
/// `<w:characterSpacingControl w:val="doNotCompress"/>`, nothing else
/// changed.
pub proof fn lemma_even_odd_inserted()
    ensures
        ({
            let c = empty_tag("w:characterSpacingControl"@, attr1("w:val"@, "doNotCompress"@));
            let e = empty_tag("w:evenAndOddHeaders"@, no_attrs());
            exists|a: Seq<char>, b: Seq<char>|
                settings_xml(false) == a + c + b && #[trigger] settings_xml(true) == a + c + e + b
        }),
{
    let c = empty_tag("w:characterSpacingControl"@, attr1("w:val"@, "doNotCompress"@));
    let e = empty_tag("w:evenAndOddHeaders"@, no_attrs());
    let a = xml_declaration() + start_tag("w:settings"@, attr1("xmlns:w"@, ns_w())) + empty_tag(
        "w:zoom"@,
        attr1("w:percent"@, "100"@),
    ) + empty_tag("w:defaultTabStop"@, attr1("w:val"@, "720"@));
    let b = note_pr("w:footnotePr"@, "w:footnote"@) + note_pr("w:endnotePr"@, "w:endnote"@) + compat_xml()
        + end_tag("w:settings"@);
    assert(settings_xml(false) =~= a + c + b);
    assert(settings_xml(true) =~= a + c + e + b);
}

pub fn settings() -> (s: String)
    ensures
        s@ == settings_xml(false),
{
    settings_with(false)
}

fn note_pr_into(outer: &str, inner: &str, x: &mut XmlBuf)
    ensures
        final(x)@ == old(x)@ + note_pr(outer@, inner@),
{
    x.open0(outer);
    x.empty1(inner, "w:id", "-1");
    x.empty1(inner, "w:id", "0");
    x.close(outer);
}

fn compat_into(x: &mut XmlBuf)
    ensures
        final(x)@ == old(x)@ + compat_xml(),
{
    let uri = "http://schemas.microsoft.com/office/word";
    x.open0("w:compat");
    x.empty3("w:compatSetting", "w:name", "compatibilityMode", "w:uri", uri, "w:val", "15");
    x.empty3(
        "w:compatSetting",
        "w:name",
        "overrideTableStyleFontSizeAndJustification",
        "w:uri",
        uri,
        "w:val",
        "1",
    );
    x.empty3("w:compatSetting", "w:name", "enableOpenTypeFeatures", "w:uri", uri, "w:val", "1");
    x.empty3("w:compatSetting", "w:name", "doNotFlipMirrorIndents", "w:uri", uri, "w:val", "1");
    x.empty3(
        "w:compatSetting",
        "w:name",
        "differentiateMultirowTableHeaders",
        "w:uri",
        uri,
        "w:val",
        "1",
    );
    x.close("w:compat");
}

/// Settings part with optional `<w:evenAndOddHeaders/>` flag. Word
/// renders the "even" header/footer variants only when it is set.
pub fn settings_with(even_and_odd: bool) -> (s: String)
    ensures
        s@ == settings_xml(even_and_odd),
{
    let mut x = XmlBuf::new();
    x.xml_decl();
    x.open1("w:settings", "xmlns:w", "http://schemas.openxmlformats.org/wordprocessingml/2006/main");
    x.empty1("w:zoom", "w:percent", "100");
    x.empty1("w:defaultTabStop", "w:val", "720");
    x.empty1("w:characterSpacingControl", "w:val", "doNotCompress");
    if even_and_odd {
        x.empty0("w:evenAndOddHeaders");
    }
    note_pr_into("w:footnotePr", "w:footnote", &mut x);
    note_pr_into("w:endnotePr", "w:endnote", &mut x);
    compat_into(&mut x);
    x.close("w:settings");
    x.finish()
}

} // verus!
