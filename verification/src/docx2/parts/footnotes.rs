//! `word/footnotes.xml` — the part holding the per-document
//! footnote contents that `<w:footnoteReference w:id="…"/>` in the
//! body refers to.
//!
//! Two boilerplate entries always go first:
//! - `id="-1"`, type `separator` — the line drawn above the
//!   footnotes block at the bottom of each page.
//! - `id="0"`, type `continuationSeparator` — drawn when a long
//!   footnote spills onto the next page.
//!
//! Then one entry per `EmitCtx::footnotes` registry entry.

use vstd::prelude::*;

use crate::docx::parts::endnotes::{open_root_w, separators, separators_into};
use crate::docx::parts::web_settings::ns_w;
use crate::docx::xml::{
    attr1, element, element_ns, empty_tag, group_concat, no_attrs, text_elem, xml_declaration,
    XmlBuf,
};
use crate::docx2::emit::ctx::FootnoteEntry;
use crate::text::{concat2, dec, u64_to_string};

verus! {

broadcast use group_concat;

/// The reference mark run Word draws as the superscript number.
pub open spec fn footnote_ref_run() -> Seq<char> {
    element(
        "w:r"@,
        no_attrs(),
        element("w:rPr"@, no_attrs(), empty_tag("w:rStyle"@, attr1("w:val"@, "FootnoteReference"@)))
            + empty_tag("w:footnoteRef"@, no_attrs()),
    )
}

/// One user footnote: the reference mark run, then its text after a
/// space.
#[verifier::opaque]
pub open spec fn footnote_xml(id: u32, text: Seq<char>) -> Seq<char> {
    element(
        "w:footnote"@,
        attr1("w:id"@, dec(id as nat)),
        element(
            "w:p"@,
            no_attrs(),
            footnote_ref_run() + element(
                "w:r"@,
                no_attrs(),
                text_elem("w:t"@, no_attrs(), seq![' '] + text, true),
            ),
        ),
    )
}

/// The user footnotes of a list, in order.
pub open spec fn footnotes_entries_xml(es: Seq<FootnoteEntry>) -> Seq<char>
    decreases es.len(),
{
    if es.len() == 0 {
        Seq::empty()
    } else {
        footnotes_entries_xml(es.drop_last()) + footnote_xml(es.last().id, es.last().text@)
    }
}

/// The whole part.
pub open spec fn footnotes_xml(es: Seq<FootnoteEntry>) -> Seq<char> {
    xml_declaration() + element_ns(
        "w:footnotes"@,
        seq![("w"@, ns_w())],
        no_attrs(),
        separators("w:footnote"@) + footnotes_entries_xml(es),
    )
}

fn footnote_ref_run_into(x: &mut XmlBuf)
    ensures
        final(x)@ == old(x)@ + footnote_ref_run(),
{
    x.open0("w:r");
    x.open0("w:rPr");
    x.empty1("w:rStyle", "w:val", "FootnoteReference");
    x.close("w:rPr");
    x.empty0("w:footnoteRef");
    x.close("w:r");
}

fn footnote_text_run_into(x: &mut XmlBuf, text: &str)
    ensures
        final(x)@ == old(x)@ + element(
            "w:r"@,
            no_attrs(),
            text_elem("w:t"@, no_attrs(), seq![' '] + text@, true),
        ),
{
    let body = concat2(" ", text);
    proof {
        reveal_strlit(" ");
        assert(body@ =~= seq![' '] + text@);
    }
    x.open0("w:r");
    x.text0("w:t", body.as_str(), true);
    x.close("w:r");
}

fn footnote_into(x: &mut XmlBuf, e: &FootnoteEntry)
    ensures
        final(x)@ == old(x)@ + footnote_xml(e.id, e.text@),
{
    let id_s = u64_to_string(e.id as u64);
    x.open1("w:footnote", "w:id", id_s.as_str());
    x.open0("w:p");
    footnote_ref_run_into(x);
    footnote_text_run_into(x, e.text.as_str());
    x.close("w:p");
    x.close("w:footnote");
    proof {
        reveal(footnote_xml);
    }
}

fn entries_into(x: &mut XmlBuf, entries: &[FootnoteEntry])
    ensures
        final(x)@ == old(x)@ + footnotes_entries_xml(entries@),
{
    let ghost s2 = x@;
    let mut i: usize = 0;
    while i < entries.len()
        invariant
            i <= entries@.len(),
            x@ == s2 + footnotes_entries_xml(entries@.take(i as int)),
        decreases entries@.len() - i,
    {
        footnote_into(x, &entries[i]);
        proof {
            assert(entries@.take(i + 1).drop_last() =~= entries@.take(i as int));
        }
        i = i + 1;
    }
    proof {
        assert(entries@.take(i as int) =~= entries@);
    }
}

pub fn footnotes(entries: &[FootnoteEntry]) -> (s: String)
    ensures
        s@ == footnotes_xml(entries@),
{
    let mut x = XmlBuf::new();
    x.xml_decl();
    open_root_w("w:footnotes", &mut x);
    // Boilerplate separator entries — Word expects these.
    separators_into("w:footnote", &mut x);
    entries_into(&mut x, entries);
    x.close("w:footnotes");
    x.finish()
}

} // verus!
