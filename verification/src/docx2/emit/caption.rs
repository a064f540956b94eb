//! Caption paragraphs below tables and figures.

use vstd::prelude::*;

use crate::docx::xml::{attr1, attr2, element, empty_tag, group_concat, no_attrs, XmlBuf};
use crate::text::{concat2, dec, u64_to_string};

use super::field::{render_seq, seq_instr, simple_field, text_run, text_run_into};
use super::toc::p_style;

verus! {

broadcast use group_concat;

/// `Label N. text` in the Caption style, bookmarked so the lists of
/// tables and figures can link to it. The number is a `SEQ Label` field
/// whose cached result is `n`.
pub open spec fn caption_para(
    label: Seq<char>,
    n: u32,
    bm_id: u32,
    bookmark: Seq<char>,
    text: Seq<char>,
) -> Seq<char> {
    element(
        "w:p"@,
        no_attrs(),
        p_style("Caption"@) + empty_tag(
            "w:bookmarkStart"@,
            attr2("w:id"@, dec(bm_id as nat), "w:name"@, bookmark),
        ) + text_run(label + seq![' ']) + simple_field(seq_instr(label), dec(n as nat)) + text_run(
            seq!['.', ' '] + text,
        ) + empty_tag("w:bookmarkEnd"@, attr1("w:id"@, dec(bm_id as nat))),
    )
}

/// The label run, the number field and the caption text run.
fn caption_runs_into(label: &str, n: u32, text: &str, x: &mut XmlBuf)
    ensures
        final(x)@ == old(x)@ + text_run(label@ + seq![' ']) + simple_field(seq_instr(label@), dec(n as nat))
            + text_run(seq!['.', ' '] + text@),
{
    // "Table " / "Figure " label run.
    let head = concat2(label, " ");
    text_run_into(head.as_str(), x);
    // SEQ field — Word increments this on F9. The cached result matches
    // the pre-computed counter so the caption reads right on first open.
    render_seq(label, n, x);
    // Separator + user-provided caption text.
    let tail = concat2(". ", text);
    text_run_into(tail.as_str(), x);
    proof {
        reveal_strlit(" ");
        reveal_strlit(". ");
        assert(head@ =~= label@ + seq![' ']);
        assert(tail@ =~= seq!['.', ' '] + text@);
    }
}

pub(crate) fn caption_para_into(
    label: &str,
    n: u32,
    bm_id: u32,
    bookmark: &str,
    text: &str,
    x: &mut XmlBuf,
)
    ensures
        final(x)@ == old(x)@ + caption_para(label@, n, bm_id, bookmark@, text@),
{
    let bm_id_s = u64_to_string(bm_id as u64);
    x.open0("w:p");
    let ghost s1 = x@;
    x.open0("w:pPr");
    x.empty1("w:pStyle", "w:val", "Caption");
    x.close("w:pPr");
    x.empty2("w:bookmarkStart", "w:id", bm_id_s.as_str(), "w:name", bookmark);
    caption_runs_into(label, n, text, x);
    x.empty1("w:bookmarkEnd", "w:id", bm_id_s.as_str());
    proof {
        assert(x@ =~= s1 + (p_style("Caption"@) + empty_tag(
            "w:bookmarkStart"@,
            attr2("w:id"@, dec(bm_id as nat), "w:name"@, bookmark@),
        ) + text_run(label@ + seq![' ']) + simple_field(seq_instr(label@), dec(n as nat))
            + text_run(seq!['.', ' '] + text@) + empty_tag(
            "w:bookmarkEnd"@,
            attr1("w:id"@, dec(bm_id as nat)),
        )));
    }
    x.close("w:p");
}

} // verus!
