//! `word/theme/theme1.xml` — color, font, and formatting theme.
//!
//! Word requires every docx with styles that reference theme fonts
//! (e.g. `Heading1`'s `asciiTheme="majorHAnsi"`) to have a theme
//! part. The theme is otherwise inert: we use the standard Office
//! palette + Calibri Light / Calibri major/minor fonts so the
//! built-in style set behaves the way Word users expect.
//!
//! Hand-authored — `<a:fontScheme>` is shortened by omitting the
//! 30+ Eastern-language fallback fonts the Office default theme
//! includes. Word fills those in from the system at render time, so
//! omitting them costs no fidelity here.

use vstd::prelude::*;

use crate::docx::xml::group_concat;
use crate::text::push_str;

verus! {

broadcast use group_concat;

/// The standard Office color scheme.
pub open spec fn color_scheme_xml() -> Seq<char> {
    "<a:clrScheme name=\"Office\">"@ + "<a:dk1><a:sysClr val=\"windowText\" lastClr=\"000000\"/></a:dk1>"@ + "<a:lt1><a:sysClr val=\"window\" lastClr=\"FFFFFF\"/></a:lt1>"@ + "<a:dk2><a:srgbClr val=\"44546A\"/></a:dk2>"@ + "<a:lt2><a:srgbClr val=\"E7E6E6\"/></a:lt2>"@ + "<a:accent1><a:srgbClr val=\"5B9BD5\"/></a:accent1>"@ + "<a:accent2><a:srgbClr val=\"ED7D31\"/></a:accent2>"@ + "<a:accent3><a:srgbClr val=\"A5A5A5\"/></a:accent3>"@ + "<a:accent4><a:srgbClr val=\"FFC000\"/></a:accent4>"@ + "<a:accent5><a:srgbClr val=\"4472C4\"/></a:accent5>"@ + "<a:accent6><a:srgbClr val=\"70AD47\"/></a:accent6>"@ + "<a:hlink><a:srgbClr val=\"0563C1\"/></a:hlink>"@ + "<a:folHlink><a:srgbClr val=\"954F72\"/></a:folHlink>"@ + "</a:clrScheme>"@
}

/// Calibri Light for headings, Calibri for body.
pub open spec fn font_scheme_xml() -> Seq<char> {
    "<a:fontScheme name=\"Office\">"@ + "<a:majorFont>"@ + "<a:latin typeface=\"Calibri Light\" panose=\"020F0302020204030204\"/>"@ + "<a:ea typeface=\"\"/>"@ + "<a:cs typeface=\"\"/>"@ + "</a:majorFont>"@ + "<a:minorFont>"@ + "<a:latin typeface=\"Calibri\" panose=\"020F0502020204030204\"/>"@ + "<a:ea typeface=\"\"/>"@ + "<a:cs typeface=\"\"/>"@ + "</a:minorFont>"@ + "</a:fontScheme>"@
}

/// `s` three times.
pub open spec fn thrice(s: Seq<char>) -> Seq<char> {
    s + s + s
}

/// Office default formatting: three passthrough fills, lines, effects
/// and background fills, as the schema requires.
pub open spec fn format_scheme_xml() -> Seq<char> {
    "<a:fmtScheme name=\"Office\">"@ + "<a:fillStyleLst>"@ + thrice("<a:solidFill><a:schemeClr val=\"phClr\"/></a:solidFill>"@) + "</a:fillStyleLst>"@ + "<a:lnStyleLst>"@ + thrice("<a:ln w=\"9525\" cap=\"flat\" cmpd=\"sng\" algn=\"ctr\"><a:solidFill><a:schemeClr val=\"phClr\"/></a:solidFill><a:prstDash val=\"solid\"/><a:miter lim=\"800000\"/></a:ln>"@) + "</a:lnStyleLst>"@ + "<a:effectStyleLst>"@
        + thrice("<a:effectStyle><a:effectLst/></a:effectStyle>"@) + "</a:effectStyleLst>"@ + "<a:bgFillStyleLst>"@ + thrice("<a:solidFill><a:schemeClr val=\"phClr\"/></a:solidFill>"@) + "</a:bgFillStyleLst>"@ + "</a:fmtScheme>"@
}

/// The whole part.
pub open spec fn theme1_xml() -> Seq<char> {
    "<?xml version=\"1.0\" encoding=\"UTF-8\" standalone=\"yes\"?>\n"@ + "<a:theme xmlns:a=\"http://schemas.openxmlformats.org/drawingml/2006/main\" name=\"Office Theme\">"@ + "<a:themeElements>"@ + color_scheme_xml() + font_scheme_xml() + format_scheme_xml() + "</a:themeElements>"@ + "<a:objectDefaults/>"@ + "<a:extraClrSchemeLst/>"@ + "</a:theme>"@
}

fn push_thrice(s: &mut String, t: &str)
    ensures
        final(s)@ == old(s)@ + thrice(t@),
{
    let mut i: u32 = 0;
    let ghost start = s@;
    while i < 3
        invariant
            i <= 3,
            i == 0 ==> s@ == start,
            i == 1 ==> s@ == start + t@,
            i == 2 ==> s@ == start + t@ + t@,
            i == 3 ==> s@ == start + thrice(t@),
        decreases 3 - i,
    {
        push_str(s, t);
        i = i + 1;
    }
}

fn color_scheme_into(s: &mut String)
    ensures
        final(s)@ == old(s)@ + color_scheme_xml(),
{
    push_str(s, "<a:clrScheme name=\"Office\">");
    push_str(s, "<a:dk1><a:sysClr val=\"windowText\" lastClr=\"000000\"/></a:dk1>");
    push_str(s, "<a:lt1><a:sysClr val=\"window\" lastClr=\"FFFFFF\"/></a:lt1>");
    push_str(s, "<a:dk2><a:srgbClr val=\"44546A\"/></a:dk2>");
    push_str(s, "<a:lt2><a:srgbClr val=\"E7E6E6\"/></a:lt2>");
    push_str(s, "<a:accent1><a:srgbClr val=\"5B9BD5\"/></a:accent1>");
    push_str(s, "<a:accent2><a:srgbClr val=\"ED7D31\"/></a:accent2>");
    push_str(s, "<a:accent3><a:srgbClr val=\"A5A5A5\"/></a:accent3>");
    push_str(s, "<a:accent4><a:srgbClr val=\"FFC000\"/></a:accent4>");
    push_str(s, "<a:accent5><a:srgbClr val=\"4472C4\"/></a:accent5>");
    push_str(s, "<a:accent6><a:srgbClr val=\"70AD47\"/></a:accent6>");
    push_str(s, "<a:hlink><a:srgbClr val=\"0563C1\"/></a:hlink>");
    push_str(s, "<a:folHlink><a:srgbClr val=\"954F72\"/></a:folHlink>");
    push_str(s, "</a:clrScheme>");
}

fn font_scheme_into(s: &mut String)
    ensures
        final(s)@ == old(s)@ + font_scheme_xml(),
{
    push_str(s, "<a:fontScheme name=\"Office\">");
    push_str(s, "<a:majorFont>");
    push_str(s, "<a:latin typeface=\"Calibri Light\" panose=\"020F0302020204030204\"/>");
    push_str(s, "<a:ea typeface=\"\"/>");
    push_str(s, "<a:cs typeface=\"\"/>");
    push_str(s, "</a:majorFont>");
    push_str(s, "<a:minorFont>");
    push_str(s, "<a:latin typeface=\"Calibri\" panose=\"020F0502020204030204\"/>");
    push_str(s, "<a:ea typeface=\"\"/>");
    push_str(s, "<a:cs typeface=\"\"/>");
    push_str(s, "</a:minorFont>");
    push_str(s, "</a:fontScheme>");
}

fn format_scheme_into(s: &mut String)
    ensures
        final(s)@ == old(s)@ + format_scheme_xml(),
{
    push_str(s, "<a:fmtScheme name=\"Office\">");
    push_str(s, "<a:fillStyleLst>");
    // 3 fills required.
    push_thrice(s, "<a:solidFill><a:schemeClr val=\"phClr\"/></a:solidFill>");
    push_str(s, "</a:fillStyleLst>");
    push_str(s, "<a:lnStyleLst>");
    // 3 lines required.
    push_thrice(s, "<a:ln w=\"9525\" cap=\"flat\" cmpd=\"sng\" algn=\"ctr\"><a:solidFill><a:schemeClr val=\"phClr\"/></a:solidFill><a:prstDash val=\"solid\"/><a:miter lim=\"800000\"/></a:ln>");
    push_str(s, "</a:lnStyleLst>");
    push_str(s, "<a:effectStyleLst>");
    // 3 effects required; empty effectLst — passthrough.
    push_thrice(s, "<a:effectStyle><a:effectLst/></a:effectStyle>");
    push_str(s, "</a:effectStyleLst>");
    push_str(s, "<a:bgFillStyleLst>");
    // 3 background fills required.
    push_thrice(s, "<a:solidFill><a:schemeClr val=\"phClr\"/></a:solidFill>");
    push_str(s, "</a:bgFillStyleLst>");
    push_str(s, "</a:fmtScheme>");
}

pub fn theme1() -> (s: String)
    ensures
        s@ == theme1_xml(),
{
    let mut s = String::new();
    push_str(&mut s, "<?xml version=\"1.0\" encoding=\"UTF-8\" standalone=\"yes\"?>\n");
    push_str(&mut s, "<a:theme xmlns:a=\"http://schemas.openxmlformats.org/drawingml/2006/main\" name=\"Office Theme\">");
    push_str(&mut s, "<a:themeElements>");
    color_scheme_into(&mut s);
    font_scheme_into(&mut s);
    format_scheme_into(&mut s);
    push_str(&mut s, "</a:themeElements>");
    push_str(&mut s, "<a:objectDefaults/>");
    push_str(&mut s, "<a:extraClrSchemeLst/>");
    push_str(&mut s, "</a:theme>");
    s
}

} // verus!
