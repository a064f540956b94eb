//! `word/fontTable.xml` — declares the fonts referenced anywhere in
//! the document or its styles.
//!
//! Word doesn't strictly require fonts to be registered here (it'll
//! substitute system equivalents), but registering them gives the
//! best fidelity on machines without the font installed: panose1 +
//! signature bits let Word pick a close-enough fallback.
//!
//! The list covers the Office defaults (Calibri / Calibri Light /
//! Cambria) plus the workhorse families styles reference (Times New
//! Roman, Courier New, Arial, Symbol).

use vstd::prelude::*;

use crate::docx::parts::web_settings::ns_w;
use crate::docx::xml::{
    attr1, attr_views, element, empty_tag, group_concat, xml_declaration, XmlBuf,
};

verus! {

broadcast use group_concat;

/// One registered font.
#[derive(Clone, Copy)]
pub struct FontEntry {
    pub name: &'static str,
    pub panose1: Option<&'static str>,
    pub charset: &'static str,
    pub family: &'static str,
    pub pitch: &'static str,
    pub sig: Option<FontSig>,
}

/// The Unicode and code-page coverage bits of a font.
#[derive(Clone, Copy)]
pub struct FontSig {
    pub usb0: &'static str,
    pub usb1: &'static str,
    pub usb2: &'static str,
    pub usb3: &'static str,
    pub csb0: &'static str,
    pub csb1: &'static str,
}

/// The `<w:sig>` attributes.
pub open spec fn sig_attrs(s: FontSig) -> Seq<(Seq<char>, Seq<char>)> {
    seq![
        ("w:usb0"@, s.usb0@),
        ("w:usb1"@, s.usb1@),
        ("w:usb2"@, s.usb2@),
        ("w:usb3"@, s.usb3@),
        ("w:csb0"@, s.csb0@),
        ("w:csb1"@, s.csb1@),
    ]
}

/// One `<w:font>` element.
pub open spec fn font_xml(e: FontEntry) -> Seq<char> {
    element(
        "w:font"@,
        attr1("w:name"@, e.name@),
        (match e.panose1 {
            Some(p) => empty_tag("w:panose1"@, attr1("w:val"@, p@)),
            None => Seq::empty(),
        }) + empty_tag("w:charset"@, attr1("w:val"@, e.charset@)) + empty_tag(
            "w:family"@,
            attr1("w:val"@, e.family@),
        ) + empty_tag("w:pitch"@, attr1("w:val"@, e.pitch@)) + match e.sig {
            Some(s) => empty_tag("w:sig"@, sig_attrs(s)),
            None => Seq::empty(),
        },
    )
}

/// The fonts of a list, in order.
pub open spec fn fonts_xml(es: Seq<FontEntry>) -> Seq<char>
    decreases es.len(),
{
    if es.len() == 0 {
        Seq::empty()
    } else {
        fonts_xml(es.drop_last()) + font_xml(es.last())
    }
}

/// A signature whose remaining fields are zero.
pub open spec fn sig(usb0: &'static str, usb1: &'static str, usb2: &'static str, csb0: &'static str) -> FontSig {
    FontSig { usb0, usb1, usb2, usb3: "00000000", csb0, csb1: "00000000" }
}

/// A font with a panose and a signature.
pub open spec fn font(
    name: &'static str,
    panose1: &'static str,
    charset: &'static str,
    family: &'static str,
    pitch: &'static str,
    s: FontSig,
) -> FontEntry {
    FontEntry { name, panose1: Some(panose1), charset, family, pitch, sig: Some(s) }
}

/// The registered fonts, in order.
pub open spec fn standard_fonts() -> Seq<FontEntry> {
    seq![
        font(
            "Times New Roman",
            "02020603050405020304",
            "00",
            "roman",
            "variable",
            sig("E0002EFF", "C000785B", "00000009", "000001FF"),
        ),
        font(
            "Symbol",
            "05050102010706020507",
            "02",
            "roman",
            "variable",
            sig("00000000", "10000000", "00000000", "80000000"),
        ),
        font(
            "Courier New",
            "02070309020205020404",
            "00",
            "modern",
            "fixed",
            sig("E0002EFF", "C0007843", "00000009", "000001FF"),
        ),
        font(
            "Calibri",
            "020F0502020204030204",
            "00",
            "swiss",
            "variable",
            sig("E0002AFF", "C000247B", "00000009", "000001FF"),
        ),
        font(
            "Calibri Light",
            "020F0302020204030204",
            "00",
            "swiss",
            "variable",
            sig("A0002AEF", "4000207B", "00000000", "000001FF"),
        ),
        font(
            "Arial",
            "020B0604020202020204",
            "00",
            "swiss",
            "variable",
            sig("E0002EFF", "C000785B", "00000009", "000001FF"),
        ),
        font(
            "Cambria",
            "02040503050406030204",
            "00",
            "roman",
            "variable",
            sig("E00006FF", "420024FF", "02000000", "0000019F"),
        ),
    ]
}

/// The whole part.
pub open spec fn font_table_xml() -> Seq<char> {
    xml_declaration() + element("w:fonts"@, attr1("xmlns:w"@, ns_w()), fonts_xml(standard_fonts()))
}

#[verifier::rlimit(40)]
fn font_into(x: &mut XmlBuf, e: &FontEntry)
    ensures
        final(x)@ == old(x)@ + font_xml(*e),
{
    x.open1("w:font", "w:name", e.name);
    let ghost s1 = x@;
    if let Some(p) = e.panose1 {
        x.empty1("w:panose1", "w:val", p);
    }
    x.empty1("w:charset", "w:val", e.charset);
    x.empty1("w:family", "w:val", e.family);
    x.empty1("w:pitch", "w:val", e.pitch);
    if let Some(sig) = &e.sig {
        let a: &[(&str, &str)] = &[
            ("w:usb0", sig.usb0),
            ("w:usb1", sig.usb1),
            ("w:usb2", sig.usb2),
            ("w:usb3", sig.usb3),
            ("w:csb0", sig.csb0),
            ("w:csb1", sig.csb1),
        ];
        proof {
            assert(attr_views(a@) =~= sig_attrs(*sig));
        }
        x.empty("w:sig", a);
    }
    proof {
        let inner = (match e.panose1 {
            Some(p) => empty_tag("w:panose1"@, attr1("w:val"@, p@)),
            None => Seq::empty(),
        }) + empty_tag("w:charset"@, attr1("w:val"@, e.charset@)) + empty_tag(
            "w:family"@,
            attr1("w:val"@, e.family@),
        ) + empty_tag("w:pitch"@, attr1("w:val"@, e.pitch@)) + match e.sig {
            Some(s) => empty_tag("w:sig"@, sig_attrs(s)),
            None => Seq::empty(),
        };
        assert(x@ =~= s1 + inner);
    }
    x.close("w:font");
}

pub fn font_table() -> (s: String)
    ensures
        s@ == font_table_xml(),
{
    let entries: &[FontEntry] = &[
        FontEntry {
            name: "Times New Roman",
            panose1: Some("02020603050405020304"),
            charset: "00",
            family: "roman",
            pitch: "variable",
            sig: Some(
                FontSig {
                    usb0: "E0002EFF",
                    usb1: "C000785B",
                    usb2: "00000009",
                    usb3: "00000000",
                    csb0: "000001FF",
                    csb1: "00000000",
                },
            ),
        },
        FontEntry {
            name: "Symbol",
            panose1: Some("05050102010706020507"),
            charset: "02",
            family: "roman",
            pitch: "variable",
            sig: Some(
                FontSig {
                    usb0: "00000000",
                    usb1: "10000000",
                    usb2: "00000000",
                    usb3: "00000000",
                    csb0: "80000000",
                    csb1: "00000000",
                },
            ),
        },
        FontEntry {
            name: "Courier New",
            panose1: Some("02070309020205020404"),
            charset: "00",
            family: "modern",
            pitch: "fixed",
            sig: Some(
                FontSig {
                    usb0: "E0002EFF",
                    usb1: "C0007843",
                    usb2: "00000009",
                    usb3: "00000000",
                    csb0: "000001FF",
                    csb1: "00000000",
                },
            ),
        },
        FontEntry {
            name: "Calibri",
            panose1: Some("020F0502020204030204"),
            charset: "00",
            family: "swiss",
            pitch: "variable",
            sig: Some(
                FontSig {
                    usb0: "E0002AFF",
                    usb1: "C000247B",
                    usb2: "00000009",
                    usb3: "00000000",
                    csb0: "000001FF",
                    csb1: "00000000",
                },
            ),
        },
        FontEntry {
            name: "Calibri Light",
            panose1: Some("020F0302020204030204"),
            charset: "00",
            family: "swiss",
            pitch: "variable",
            sig: Some(
                FontSig {
                    usb0: "A0002AEF",
                    usb1: "4000207B",
                    usb2: "00000000",
                    usb3: "00000000",
                    csb0: "000001FF",
                    csb1: "00000000",
                },
            ),
        },
        FontEntry {
            name: "Arial",
            panose1: Some("020B0604020202020204"),
            charset: "00",
            family: "swiss",
            pitch: "variable",
            sig: Some(
                FontSig {
                    usb0: "E0002EFF",
                    usb1: "C000785B",
                    usb2: "00000009",
                    usb3: "00000000",
                    csb0: "000001FF",
                    csb1: "00000000",
                },
            ),
        },
        FontEntry {
            name: "Cambria",
            panose1: Some("02040503050406030204"),
            charset: "00",
            family: "roman",
            pitch: "variable",
            sig: Some(
                FontSig {
                    usb0: "E00006FF",
                    usb1: "420024FF",
                    usb2: "02000000",
                    usb3: "00000000",
                    csb0: "0000019F",
                    csb1: "00000000",
                },
            ),
        },
    ];
    proof {
        assert(entries@ =~= standard_fonts());
    }
    let mut x = XmlBuf::new();
    x.xml_decl();
    x.open1("w:fonts", "xmlns:w", "http://schemas.openxmlformats.org/wordprocessingml/2006/main");
    fonts_into(&mut x, entries);
    x.close("w:fonts");
    x.finish()
}

#[verifier::rlimit(40)]
#[verifier::spinoff_prover]
fn fonts_into(x: &mut XmlBuf, entries: &[FontEntry])
    ensures
        final(x)@ == old(x)@ + fonts_xml(entries@),
{
    let ghost s1 = x@;
    let mut i: usize = 0;
    while i < entries.len()
        invariant
            i <= entries@.len(),
            x@ == s1 + fonts_xml(entries@.take(i as int)),
        decreases entries@.len() - i,
    {
        font_into(x, &entries[i]);
        proof {
            assert(entries@.take(i + 1).drop_last() =~= entries@.take(i as int));
        }
        i = i + 1;
    }
    proof {
        assert(entries@.take(i as int) =~= entries@);
    }
}

} // verus!
