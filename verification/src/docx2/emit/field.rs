//! Field emission — PAGE, NUMPAGES, SEQ, PAGEREF, TOC.
//!
//! Two shapes:
//! - **Simple field**: `<w:fldSimple w:instr="…">…displayed…</w:fldSimple>`,
//!   used for `PAGE`, `NUMPAGES`, and `SEQ`.
//! - **Complex field**: `begin` / `instrText` / `separate` / displayed
//!   runs / `end`, used when the displayed result holds nested runs
//!   (`TOC`, `PAGEREF`).
//!
//! `<w:instrText>` always carries `xml:space="preserve"`.

use vstd::prelude::*;

use crate::docx::xml::{attr1, element, empty_tag, group_concat, no_attrs, text_elem, XmlBuf};
use crate::text::{dec, push_dec, push_str, u64_to_string};

verus! {

broadcast use group_concat;

/// A `<w:r>` holding one preserved `<w:t>`.
pub open spec fn text_run(text: Seq<char>) -> Seq<char> {
    element("w:r"@, no_attrs(), text_elem("w:t"@, no_attrs(), text, true))
}

/// `<w:fldSimple w:instr="instr"><w:r><w:t xml:space="preserve">displayed</w:t></w:r></w:fldSimple>`.
#[verifier::opaque]
pub open spec fn simple_field(instr: Seq<char>, displayed: Seq<char>) -> Seq<char> {
    element("w:fldSimple"@, attr1("w:instr"@, instr), text_run(displayed))
}

/// A run holding one `<w:fldChar>` of the given type.
pub open spec fn fld_char_run(kind: Seq<char>) -> Seq<char> {
    element("w:r"@, no_attrs(), empty_tag("w:fldChar"@, attr1("w:fldCharType"@, kind)))
}

/// The runs that open a complex field up to its displayed result.
pub open spec fn complex_field_head(instr: Seq<char>) -> Seq<char> {
    fld_char_run("begin"@) + element(
        "w:r"@,
        no_attrs(),
        text_elem("w:instrText"@, no_attrs(), instr, true),
    ) + fld_char_run("separate"@)
}

/// A complex field around already-serialized result runs.
pub open spec fn complex_field(instr: Seq<char>, result: Seq<char>) -> Seq<char> {
    complex_field_head(instr) + result + fld_char_run("end"@)
}

/// ` SEQ name \* ARABIC `.
pub open spec fn seq_instr(name: Seq<char>) -> Seq<char> {
    " SEQ "@ + name + " \\* ARABIC "@
}

/// ` PAGEREF bookmark \h `.
pub open spec fn page_ref_instr(bookmark: Seq<char>) -> Seq<char> {
    " PAGEREF "@ + bookmark + " \\h "@
}

pub(crate) fn text_run_into(text: &str, x: &mut XmlBuf)
    ensures
        final(x)@ == old(x)@ + text_run(text@),
{
    x.open0("w:r");
    x.text0("w:t", text, true);
    x.close("w:r");
}

/// Emit a `<w:fldSimple>` with a single displayed run carrying
/// `displayed` as plain text. `instr` is the field instruction.
pub fn render_simple(instr: &str, displayed: &str, x: &mut XmlBuf)
    ensures
        final(x)@ == old(x)@ + simple_field(instr@, displayed@),
{
    reveal(simple_field);
    x.open1("w:fldSimple", "w:instr", instr);
    text_run_into(displayed, x);
    x.close("w:fldSimple");
}

/// Emit a `PAGE` field.
pub fn render_page(x: &mut XmlBuf)
    ensures
        final(x)@ == old(x)@ + simple_field(" PAGE   \\* MERGEFORMAT "@, "1"@),
{
    render_simple(" PAGE   \\* MERGEFORMAT ", "1", x);
}

/// Emit a `NUMPAGES` field.
pub fn render_num_pages(x: &mut XmlBuf)
    ensures
        final(x)@ == old(x)@ + simple_field(" NUMPAGES   \\* MERGEFORMAT "@, "1"@),
{
    render_simple(" NUMPAGES   \\* MERGEFORMAT ", "1", x);
}

/// Emit a `SEQ <name>` field — the auto-incrementing counter of table
/// and figure captions. `displayed` is the cached number.
pub fn render_seq(name: &str, displayed: u32, x: &mut XmlBuf)
    ensures
        final(x)@ == old(x)@ + simple_field(seq_instr(name@), dec(displayed as nat)),
{
    let mut instr = String::new();
    push_str(&mut instr, " SEQ ");
    push_str(&mut instr, name);
    push_str(&mut instr, " \\* ARABIC ");
    let shown = u64_to_string(displayed as u64);
    render_simple(instr.as_str(), shown.as_str(), x);
    proof {
        assert(instr@ =~= seq_instr(name@));
    }
}

/// Emit the opening runs of a complex field: `begin`, the instruction,
/// `separate`. The displayed result and [`render_complex_end`] follow.
pub fn render_complex_begin(instr: &str, x: &mut XmlBuf)
    ensures
        final(x)@ == old(x)@ + complex_field_head(instr@),
{
    fld_char_run_into("begin", x);
    x.open0("w:r");
    x.text0("w:instrText", instr, true);
    x.close("w:r");
    fld_char_run_into("separate", x);
}

/// Emit the closing `end` run of a complex field.
pub fn render_complex_end(x: &mut XmlBuf)
    ensures
        final(x)@ == old(x)@ + fld_char_run("end"@),
{
    fld_char_run_into("end", x);
}

pub(crate) fn fld_char_run_into(kind: &str, x: &mut XmlBuf)
    ensures
        final(x)@ == old(x)@ + fld_char_run(kind@),
{
    x.open0("w:r");
    x.empty1("w:fldChar", "w:fldCharType", kind);
    x.close("w:r");
}

/// Emit a complex field whose displayed result is `result`, serialized
/// runs placed between `separate` and `end`.
pub fn render_complex(instr: &str, x: &mut XmlBuf, result: &str)
    ensures
        final(x)@ == old(x)@ + complex_field(instr@, result@),
{
    render_complex_begin(instr, x);
    x.raw(result);
    render_complex_end(x);
}

/// Emit a `PAGEREF <bookmark>` field, used by TOC entries to render the
/// page number next to an entry.
pub fn render_page_ref(bookmark: &str, displayed: &str, x: &mut XmlBuf)
    ensures
        final(x)@ == old(x)@ + complex_field(page_ref_instr(bookmark@), text_run(displayed@)),
{
    let mut instr = String::new();
    push_str(&mut instr, " PAGEREF ");
    push_str(&mut instr, bookmark);
    push_str(&mut instr, " \\h ");
    proof {
        assert(instr@ =~= page_ref_instr(bookmark@));
    }
    render_complex_begin(instr.as_str(), x);
    text_run_into(displayed, x);
    render_complex_end(x);
}

} // verus!
