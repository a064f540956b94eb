//! Drawing emission — embedded images.
//!
//! Stem source:
//!
//!   `image[src:"logo.png", w:"3in", h:"2in", float:"anchor"]`
//!
//! Two layout modes:
//! - `inline` (default) — `<wp:inline>` with `<wp:extent>` only;
//!   image flows with the text.
//! - `anchor` — `<wp:anchor>` with `<wp:positionH>` /
//!   `<wp:positionV>` so the cover-page logo can land at an
//!   explicit page offset.
//!
//! The image bytes are read by the caller ahead of emission (see
//! [`ImageSource`]), registered in the context's image registry here,
//! and written into the ZIP by the packager.

use vstd::prelude::*;

use crate::ast_v2::{lookup_str, Block};
use crate::docx::xml::{
    attr1, attr2, attr_views, element, empty_tag, group_concat, no_attrs, text_elem, XmlBuf,
};
use crate::keys::{first_match, lemma_first_match, lemma_first_match_is};
use crate::text::{
    ascii_lower, chars_of, concat2, push_str, dec, lower_char, prefixed_number, str_eq, to_owned_string, trim, trim_spec,
    u64_to_string,
};

use super::caption::{caption_para, caption_para_into};
use super::ctx::{image_env, next_index, rid_text, succ, EmitCtx, ImageEnv, ImageSource};
use super::length::{length, length_of};
use super::state::{doc_frame, doc_state, image_views, DocState, ImageView};
use super::run::RunState;

verus! {

broadcast use group_concat;

// EMU = English Metric Unit, OOXML's standard length unit.
// 914400 EMU per inch.
pub const EMU_PER_INCH: u32 = 914_400;

pub const EMU_PER_PT: u32 = 12_700;

pub const EMU_PER_CM: u32 = 360_000;

pub const EMU_PER_MM: u32 = 36_000;

/// Assumes 96 DPI.
pub const EMU_PER_PX: u32 = 9_525;

// ------------------------------------------------------------------
// Lengths and sizes
// ------------------------------------------------------------------

/// An ASCII letter.
pub open spec fn is_letter(c: char) -> bool {
    ('a' <= c && c <= 'z') || ('A' <= c && c <= 'Z')
}

/// The index of the first letter of `s`, or its length.
pub open spec fn first_letter(s: Seq<char>) -> nat
    decreases s.len(),
{
    if s.len() == 0 || is_letter(s[0]) {
        0
    } else {
        1 + first_letter(s.drop_first())
    }
}

/// EMU per unit: empty and `px` are pixels.
pub open spec fn emu_per_unit(u: Seq<char>) -> Option<nat> {
    if u == ""@ || u == "px"@ {
        Some(9525)
    } else if u == "pt"@ {
        Some(12700)
    } else if u == "in"@ {
        Some(914400)
    } else if u == "cm"@ {
        Some(360000)
    } else if u == "mm"@ {
        Some(36000)
    } else {
        None
    }
}

/// The unit names are pairwise different texts.
pub(crate) proof fn lemma_unit_names_distinct()
    ensures
        ""@.len() == 0,
        "px"@ != ""@,
        "in"@ != ""@ && "in"@ != "px"@ && "in"@ != "pt"@,
        "pt"@ != ""@ && "pt"@ != "px"@,
        "cm"@ != ""@ && "cm"@ != "px"@ && "cm"@ != "pt"@ && "cm"@ != "in"@,
        "mm"@ != ""@ && "mm"@ != "px"@ && "mm"@ != "pt"@ && "mm"@ != "in"@ && "mm"@ != "cm"@,
        "%"@ != ""@ && "%"@ != "px"@ && "%"@ != "pt"@ && "%"@ != "in"@ && "%"@ != "cm"@ && "%"@
            != "mm"@,
{
    reveal_strlit("");
    reveal_strlit("px");
    reveal_strlit("pt");
    reveal_strlit("in");
    reveal_strlit("cm");
    reveal_strlit("mm");
    reveal_strlit("%");
    assert("px"@.len() != ""@.len());
    assert("in"@ != ""@ && "in"@ != "px"@ && "in"@ != "pt"@) by {
        assert("in"@.len() != ""@.len());
        assert("in"@[0] != "px"@[0] && "in"@[0] != "pt"@[0]);
    }
    assert("pt"@ != ""@ && "pt"@ != "px"@) by {
        assert("pt"@.len() != ""@.len());
        assert("pt"@[1] != "px"@[1]);
    }
    assert("cm"@ != ""@ && "cm"@ != "px"@ && "cm"@ != "pt"@ && "cm"@ != "in"@) by {
        assert("cm"@.len() != ""@.len());
        assert("cm"@[0] != "px"@[0] && "cm"@[0] != "pt"@[0] && "cm"@[0] != "in"@[0]);
    }
    assert("mm"@ != ""@ && "mm"@ != "px"@ && "mm"@ != "pt"@ && "mm"@ != "in"@ && "mm"@ != "cm"@)
        by {
        assert("mm"@.len() != ""@.len());
        assert("mm"@[0] != "px"@[0] && "mm"@[0] != "pt"@[0] && "mm"@[0] != "in"@[0] && "mm"@[0]
            != "cm"@[0]);
    }
    assert("%"@ != ""@ && "%"@ != "px"@ && "%"@ != "pt"@ && "%"@ != "in"@ && "%"@ != "cm"@ && "%"@
        != "mm"@) by {
        assert("%"@.len() != ""@.len() && "%"@.len() != "px"@.len());
    }
}

/// The units agree with one another: an inch is 914400 EMU, 72 points,
/// 96 pixels (a bare number counts as pixels), 2.54 centimetres and 25.4
/// millimetres; a centimetre is 10 millimetres.
pub proof fn lemma_units_agree()
    ensures
        emu_per_unit("in"@) == Some(914400nat),
        emu_per_unit(""@) == emu_per_unit("px"@),
        emu_per_unit("in"@).unwrap() == 72 * emu_per_unit("pt"@).unwrap(),
        emu_per_unit("in"@).unwrap() == 96 * emu_per_unit("px"@).unwrap(),
        100 * emu_per_unit("in"@).unwrap() == 254 * emu_per_unit("cm"@).unwrap(),
        10 * emu_per_unit("in"@).unwrap() == 254 * emu_per_unit("mm"@).unwrap(),
        emu_per_unit("cm"@).unwrap() == 10 * emu_per_unit("mm"@).unwrap(),
        emu_per_unit("%"@) is None,
{
    lemma_unit_names_distinct();
}

/// A length text in EMU: a decimal number and a unit, no percentages,
/// rounded to the nearest EMU; `None` for anything else, a negative
/// length, or one past `u32::MAX`.
pub open spec fn length_emu_of(s: Seq<char>) -> Option<u32> {
    let t = trim_spec(s);
    if t.len() > 0 && t.last() == '%' {
        None
    } else {
        let i = first_letter(t);
        let num = t.take(i as int);
        let unit = t.skip(i as int);
        if num.len() == 0 {
            None
        } else {
            match emu_per_unit(unit) {
                Some(f) => length_of(num, f, 1),
                None => None,
            }
        }
    }
}

pub(crate) fn first_letter_at(cs: &Vec<char>) -> (i: usize)
    ensures
        i == first_letter(cs@),
        i <= cs@.len(),
{
    let n = cs.len();
    let mut i: usize = 0;
    proof {
        assert(cs@.skip(0) =~= cs@);
    }
    while i < n && !(('a' <= cs[i] && cs[i] <= 'z') || ('A' <= cs[i] && cs[i] <= 'Z'))
        invariant
            i <= n,
            n == cs@.len(),
            first_letter(cs@) == i + first_letter(cs@.skip(i as int)),
        decreases n - i,
    {
        proof {
            assert(cs@.skip(i as int).drop_first() =~= cs@.skip(i + 1));
        }
        i = i + 1;
    }
    proof {
        if i < n {
            assert(cs@.skip(i as int)[0] == cs@[i as int]);
        } else {
            assert(cs@.skip(i as int) =~= Seq::<char>::empty());
        }
    }
    i
}

/// Parse a length property (`"2in"`, `"72pt"`, `"96"`, …) to EMU.
pub fn parse_length_to_emu(s: &str) -> (r: Option<u32>)
    ensures
        r == length_emu_of(s@),
{
    let t = trim(s);
    let cs = crate::text::chars_of(t.as_str());
    let n = cs.len();
    if n > 0 && cs[n - 1] == '%' {
        return None;
    }
    let i = first_letter_at(&cs);
    let num = crate::text::string_of_range(&cs, 0, i);
    let unit = crate::text::string_of_range(&cs, i, n);
    proof {
        assert(num@ =~= t@.take(i as int));
        assert(unit@ =~= t@.skip(i as int));
        reveal_strlit("");
        reveal_strlit("px");
        reveal_strlit("pt");
        reveal_strlit("in");
        reveal_strlit("cm");
        reveal_strlit("mm");
    }
    if i == 0 {
        return None;
    }
    let u = unit.as_str();
    let f: u64 = if str_eq(u, "") || str_eq(u, "px") {
        9525
    } else if str_eq(u, "pt") {
        12700
    } else if str_eq(u, "in") {
        914400
    } else if str_eq(u, "cm") {
        360000
    } else if str_eq(u, "mm") {
        36000
    } else {
        return None;
    };
    length(num.as_str(), f, 1)
}

/// The default image size: 3 × 2 inches.
pub open spec fn default_w() -> nat {
    2743200
}

pub open spec fn default_h() -> nat {
    1828800
}

/// The length of a property, if it parses.
pub open spec fn prop_emu(b: Block, key: Seq<char>) -> Option<u32> {
    match lookup_str(b.properties@, key) {
        Some(v) => length_emu_of(v),
        None => None,
    }
}

/// The image's `(w, h)` in EMU: from its `w` and `h` properties, the
/// other axis keeping the 3:2 default ratio when only one is set, else
/// 3" × 2".
pub open spec fn image_size(b: Block) -> (u32, u32) {
    match (prop_emu(b, "w"@), prop_emu(b, "h"@)) {
        (Some(w), Some(h)) => (w, h),
        (Some(w), None) => (w, ((w as nat * default_h()) / default_w()) as u32),
        (None, Some(h)) => (((h as nat * default_w()) / default_h()) as u32, h),
        (None, None) => (default_w() as u32, default_h() as u32),
    }
}

fn resolve_size(b: &Block) -> (r: (u32, u32))
    ensures
        r == image_size(*b),
{
    let w = match b.prop_str("w") {
        Some(v) => parse_length_to_emu(v),
        None => None,
    };
    let h = match b.prop_str("h") {
        Some(v) => parse_length_to_emu(v),
        None => None,
    };
    // Default 3"×2" — middle-of-the-road figure size. Either axis may be
    // overridden; when only one is set we keep the 3:2 ratio.
    let default_w: u64 = 3 * EMU_PER_INCH as u64;
    let default_h: u64 = 2 * EMU_PER_INCH as u64;
    match (w, h) {
        (Some(w), Some(h)) => (w, h),
        (Some(w), None) => {
            proof {
                assert(w as u64 * default_h <= 0xFFFF_FFFF * 1828800) by (nonlinear_arith)
                    requires
                        default_h == 1828800,
                ;
            }
            let h = (w as u64 * default_h / default_w) as u32;
            (w, h)
        },
        (None, Some(h)) => {
            proof {
                assert(h as u64 * default_w <= 0xFFFF_FFFF * 2743200) by (nonlinear_arith)
                    requires
                        default_w == 2743200,
                ;
            }
            let w = (h as u64 * default_w / default_h) as u32;
            (w, h)
        },
        (None, None) => (default_w as u32, default_h as u32),
    }
}

/// An image's size keeps the 3:2 (width:height) default ratio: given only
/// a width `w`, the height is `floor(w * 2 / 3)`, never above the width;
/// given only a height `h` (one whose widened axis still fits in 32 bits),
/// the width is `floor(h * 3 / 2)`. A width and a height given together are
/// used as they are; with neither, the image is 3 x 2 inches.
pub proof fn lemma_image_size_ratio(b: Block)
    ensures
        ({
            let (w, h) = image_size(b);
            &&& (prop_emu(b, "w"@) is Some && prop_emu(b, "h"@) is None) ==> {
                &&& Some(w) == prop_emu(b, "w"@)
                &&& 3 * (h as int) <= 2 * (w as int) < 3 * (h as int) + 3
                &&& h <= w
            }
            &&& (prop_emu(b, "w"@) is None && prop_emu(b, "h"@) is Some && 3 * (prop_emu(
                b,
                "h"@,
            ).unwrap() as int) / 2 <= 0xFFFF_FFFF) ==> {
                &&& Some(h) == prop_emu(b, "h"@)
                &&& 2 * (w as int) <= 3 * (h as int) < 2 * (w as int) + 2
            }
            &&& (prop_emu(b, "w"@) is Some && prop_emu(b, "h"@) is Some) ==> (Some(w) == prop_emu(
                b,
                "w"@,
            ) && Some(h) == prop_emu(b, "h"@))
            &&& (prop_emu(b, "w"@) is None && prop_emu(b, "h"@) is None) ==> (w == 2743200 && h
                == 1828800)
        }),
{
    match (prop_emu(b, "w"@), prop_emu(b, "h"@)) {
        (Some(w), None) => {
            let q: int = (w as int * 1828800) / 2743200;
            assert(0 <= q <= w && 3 * q <= 2 * (w as int) < 3 * q + 3) by (nonlinear_arith)
                requires
                    q == (w as int * 1828800) / 2743200,
                    0 <= w,
            ;
        },
        (None, Some(h)) => {
            if 3 * (h as int) / 2 <= 0xFFFF_FFFF {
                let q: int = (h as int * 2743200) / 1828800;
                assert(0 <= q && q == 3 * (h as int) / 2 && 2 * q <= 3 * (h as int) < 2 * q + 2)
                    by (nonlinear_arith)
                    requires
                        q == (h as int * 2743200) / 1828800,
                        0 <= h,
                ;
            }
        },
        _ => {},
    }
}

// ------------------------------------------------------------------
// Image type
// ------------------------------------------------------------------

/// The part extension from the path's extension, by magic bytes when the
/// extension says nothing, else `png`.
pub open spec fn ext_for(path_ext: Option<Seq<char>>, bytes: Seq<u8>) -> Seq<char> {
    let lower = match path_ext {
        Some(e) => Some(e.map_values(|c: char| lower_char(c))),
        None => None,
    };
    if lower == Some("png"@) {
        "png"@
    } else if lower == Some("jpg"@) || lower == Some("jpeg"@) {
        "jpeg"@
    } else if lower == Some("gif"@) {
        "gif"@
    } else if lower == Some("bmp"@) {
        "bmp"@
    } else if lower == Some("tif"@) || lower == Some("tiff"@) {
        "tiff"@
    } else if bytes.len() >= 4 && bytes[0] == 0x89 && bytes[1] == 0x50 && bytes[2] == 0x4E
        && bytes[3] == 0x47 {
        "png"@
    } else if bytes.len() >= 3 && bytes[0] == 0xFF && bytes[1] == 0xD8 && bytes[2] == 0xFF {
        "jpeg"@
    } else if bytes.len() >= 4 && bytes[0] == 0x47 && bytes[1] == 0x49 && bytes[2] == 0x46
        && bytes[3] == 0x38 {
        "gif"@
    } else {
        "png"@
    }
}

/// A known extension decides the type whatever the bytes hold, in any
/// letter case; without one, PNG, JPEG and GIF signatures are recognised,
/// and anything else is taken as PNG.
pub proof fn lemma_ext_known_wins(e: Seq<char>, b1: Seq<u8>, b2: Seq<u8>)
    ensures
        ext_for(Some(e.map_values(|c: char| lower_char(c))), b1) == ext_for(Some(e), b1),
        ext_for(Some("png"@), b1) == "png"@,
        ext_for(Some("JPG"@), b1) == "jpeg"@,
        ext_for(Some("jpeg"@), b1) == "jpeg"@,
        ext_for(Some("gif"@), b1) == "gif"@,
        ext_for(Some("bmp"@), b1) == "bmp"@,
        ext_for(Some("tif"@), b1) == "tiff"@,
        ext_for(Some("tiff"@), b1) == "tiff"@,
        ({
            let known = ext_for(Some(e), Seq::empty()) != "png"@ || e.map_values(
                |c: char| lower_char(c),
            ) == "png"@;
            known ==> ext_for(Some(e), b1) == ext_for(Some(e), b2)
        }),
        (b1.len() >= 4 && b1[0] == 0x89 && b1[1] == 0x50 && b1[2] == 0x4E && b1[3] == 0x47)
            ==> ext_for(None, b1) == "png"@,
        (b1.len() >= 3 && b1[0] == 0xFF && b1[1] == 0xD8 && b1[2] == 0xFF) ==> ext_for(None, b1)
            == "jpeg"@,
        (b1.len() >= 4 && b1[0] == 0x47 && b1[1] == 0x49 && b1[2] == 0x46 && b1[3] == 0x38)
            ==> ext_for(None, b1) == "gif"@,
        b1.len() < 3 ==> ext_for(None, b1) == "png"@,
{
    reveal_strlit("png");
    reveal_strlit("JPG");
    reveal_strlit("jpg");
    reveal_strlit("jpeg");
    reveal_strlit("gif");
    reveal_strlit("bmp");
    reveal_strlit("tif");
    reveal_strlit("tiff");
    let lower = e.map_values(|c: char| lower_char(c));
    assert(lower.map_values(|c: char| lower_char(c)) =~= lower);
    assert("png"@.map_values(|c: char| lower_char(c)) =~= "png"@);
    assert("JPG"@.map_values(|c: char| lower_char(c)) =~= "jpg"@);
    assert("jpeg"@.map_values(|c: char| lower_char(c)) =~= "jpeg"@);
    assert("gif"@.map_values(|c: char| lower_char(c)) =~= "gif"@);
    assert("bmp"@.map_values(|c: char| lower_char(c)) =~= "bmp"@);
    assert("tif"@.map_values(|c: char| lower_char(c)) =~= "tif"@);
    assert("tiff"@.map_values(|c: char| lower_char(c)) =~= "tiff"@);
    assert("jpg"@ != "png"@) by {
        assert("jpg"@[0] != "png"@[0]);
    }
    assert("gif"@ != "png"@ && "gif"@ != "jpg"@ && "gif"@ != "jpeg"@) by {
        assert("gif"@[0] != "png"@[0] && "gif"@[0] != "jpg"@[0] && "gif"@.len() != "jpeg"@.len());
    }
    assert("bmp"@ != "png"@ && "bmp"@ != "jpg"@ && "bmp"@ != "jpeg"@ && "bmp"@ != "gif"@) by {
        assert("bmp"@[0] != "png"@[0] && "bmp"@[0] != "jpg"@[0] && "bmp"@.len() != "jpeg"@.len()
            && "bmp"@[0] != "gif"@[0]);
    }
    assert("tif"@ != "png"@ && "tif"@ != "jpg"@ && "tif"@ != "jpeg"@ && "tif"@ != "gif"@ && "tif"@
        != "bmp"@) by {
        assert("tif"@[0] != "png"@[0] && "tif"@[0] != "jpg"@[0] && "tif"@.len() != "jpeg"@.len()
            && "tif"@[0] != "gif"@[0] && "tif"@[0] != "bmp"@[0]);
    }
    assert("tiff"@ != "png"@ && "tiff"@ != "jpg"@ && "tiff"@ != "jpeg"@ && "tiff"@ != "gif"@
        && "tiff"@ != "bmp"@) by {
        assert("tiff"@.len() != "png"@.len() && "tiff"@[0] != "jpeg"@[0]);
    }
    assert("jpeg"@ != "png"@) by {
        assert("jpeg"@.len() != "png"@.len());
    }
}

/// Pick the file extension to use for the part path + content type:
/// the extension of the image's path (`path_ext`, as the path API reports
/// it) when it names a known type; else magic-byte sniffing; else png.
pub fn detect_ext(path_ext: Option<&str>, bytes: &[u8]) -> (r: &'static str)
    ensures
        r@ == ext_for(
            match path_ext {
                Some(e) => Some(e@),
                None => None,
            },
            bytes@,
        ),
{
    proof {
        reveal_strlit("png");
        reveal_strlit("jpg");
        reveal_strlit("jpeg");
        reveal_strlit("gif");
        reveal_strlit("bmp");
        reveal_strlit("tif");
        reveal_strlit("tiff");
    }
    if let Some(e) = path_ext {
        let lower = ascii_lower(e);
        let l = lower.as_str();
        if str_eq(l, "png") {
            return "png";
        } else if str_eq(l, "jpg") || str_eq(l, "jpeg") {
            return "jpeg";
        } else if str_eq(l, "gif") {
            return "gif";
        } else if str_eq(l, "bmp") {
            return "bmp";
        } else if str_eq(l, "tif") || str_eq(l, "tiff") {
            return "tiff";
        }
    }
    if bytes.len() >= 4 && bytes[0] == 0x89 && bytes[1] == 0x50 && bytes[2] == 0x4E && bytes[3]
        == 0x47 {
        return "png";
    }
    if bytes.len() >= 3 && bytes[0] == 0xFF && bytes[1] == 0xD8 && bytes[2] == 0xFF {
        return "jpeg";
    }
    if bytes.len() >= 4 && bytes[0] == 0x47 && bytes[1] == 0x49 && bytes[2] == 0x46 && bytes[3]
        == 0x38 {
        return "gif";
    }
    "png"
}

// ------------------------------------------------------------------
// What an image emits
// ------------------------------------------------------------------

/// `[image: reason]` in a plain paragraph.
pub open spec fn placeholder_xml(reason: Seq<char>) -> Seq<char> {
    element(
        "w:p"@,
        no_attrs(),
        element(
            "w:r"@,
            no_attrs(),
            text_elem("w:t"@, no_attrs(), "[image: "@ + reason + seq![']'], true),
        ),
    )
}

pub open spec fn ns_wp() -> Seq<char> {
    "http://schemas.openxmlformats.org/drawingml/2006/wordprocessingDrawing"@
}

pub open spec fn ns_a() -> Seq<char> {
    "http://schemas.openxmlformats.org/drawingml/2006/main"@
}

pub open spec fn ns_pic() -> Seq<char> {
    "http://schemas.openxmlformats.org/drawingml/2006/picture"@
}

pub open spec fn extent_xml(w: u32, h: u32) -> Seq<char> {
    empty_tag("wp:extent"@, attr2("cx"@, dec(w as nat), "cy"@, dec(h as nat)))
}

pub open spec fn effect_extent_xml() -> Seq<char> {
    empty_tag("wp:effectExtent"@, seq![("l"@, "0"@), ("t"@, "0"@), ("r"@, "0"@), ("b"@, "0"@)])
}

/// `Picture N`.
pub open spec fn picture_name(id: u32) -> Seq<char> {
    "Picture "@ + dec(id as nat)
}

#[verifier::opaque]
pub open spec fn doc_pr_xml(id: u32, alt: Seq<char>) -> Seq<char> {
    empty_tag("wp:docPr"@, seq![("id"@, dec(id as nat)), ("name"@, picture_name(id)), ("descr"@, alt)])
        + element(
        "wp:cNvGraphicFramePr"@,
        no_attrs(),
        empty_tag("a:graphicFrameLocks"@, attr2("xmlns:a"@, ns_a(), "noChangeAspect"@, "1"@)),
    )
}

pub open spec fn nv_pic_pr_xml(id: u32, alt: Seq<char>) -> Seq<char> {
    element(
        "pic:nvPicPr"@,
        no_attrs(),
        empty_tag(
            "pic:cNvPr"@,
            seq![("id"@, dec(id as nat)), ("name"@, picture_name(id)), ("descr"@, alt)],
        ) + empty_tag("pic:cNvPicPr"@, no_attrs()),
    )
}

pub open spec fn blip_fill_xml(rid: Seq<char>) -> Seq<char> {
    element(
        "pic:blipFill"@,
        no_attrs(),
        empty_tag(
            "a:blip"@,
            attr2(
                "xmlns:r"@,
                "http://schemas.openxmlformats.org/officeDocument/2006/relationships"@,
                "r:embed"@,
                rid,
            ),
        ) + element("a:stretch"@, no_attrs(), empty_tag("a:fillRect"@, no_attrs())),
    )
}

pub open spec fn sp_pr_xml(w: u32, h: u32) -> Seq<char> {
    element(
        "pic:spPr"@,
        no_attrs(),
        element(
            "a:xfrm"@,
            no_attrs(),
            empty_tag("a:off"@, attr2("x"@, "0"@, "y"@, "0"@)) + empty_tag(
                "a:ext"@,
                attr2("cx"@, dec(w as nat), "cy"@, dec(h as nat)),
            ),
        ) + element("a:prstGeom"@, attr1("prst"@, "rect"@), empty_tag("a:avLst"@, no_attrs())),
    )
}

#[verifier::opaque]
pub open spec fn graphic_xml(rid: Seq<char>, id: u32, alt: Seq<char>, w: u32, h: u32) -> Seq<char> {
    element(
        "a:graphic"@,
        attr1("xmlns:a"@, ns_a()),
        element(
            "a:graphicData"@,
            attr1("uri"@, ns_pic()),
            element(
                "pic:pic"@,
                attr1("xmlns:pic"@, ns_pic()),
                nv_pic_pr_xml(id, alt) + blip_fill_xml(rid) + sp_pr_xml(w, h),
            ),
        ),
    )
}

pub open spec fn inline_attrs() -> Seq<(Seq<char>, Seq<char>)> {
    seq![
        ("xmlns:wp"@, ns_wp()),
        ("distT"@, "0"@),
        ("distB"@, "0"@),
        ("distL"@, "0"@),
        ("distR"@, "0"@),
    ]
}

/// An image flowing with the text.
#[verifier::opaque]
pub open spec fn inline_xml(rid: Seq<char>, id: u32, alt: Seq<char>, w: u32, h: u32) -> Seq<char> {
    element(
        "wp:inline"@,
        inline_attrs(),
        extent_xml(w, h) + effect_extent_xml() + doc_pr_xml(id, alt) + graphic_xml(rid, id, alt, w, h),
    )
}

pub open spec fn anchor_attrs(behind: bool) -> Seq<(Seq<char>, Seq<char>)> {
    seq![
        ("xmlns:wp"@, ns_wp()),
        ("distT"@, "0"@),
        ("distB"@, "0"@),
        ("distL"@, "0"@),
        ("distR"@, "0"@),
        ("simplePos"@, "0"@),
        ("relativeHeight"@, "1"@),
        ("behindDoc"@, if behind {
            "1"@
        } else {
            "0"@
        }),
        ("locked"@, "0"@),
        ("layoutInCell"@, "1"@),
        ("allowOverlap"@, "1"@),
    ]
}

/// Anchored to the page, centered horizontally and one inch down.
pub open spec fn anchor_position_xml() -> Seq<char> {
    empty_tag("wp:simplePos"@, attr2("x"@, "0"@, "y"@, "0"@)) + element(
        "wp:positionH"@,
        attr1("relativeFrom"@, "page"@),
        text_elem("wp:align"@, no_attrs(), "center"@, false),
    ) + element(
        "wp:positionV"@,
        attr1("relativeFrom"@, "page"@),
        text_elem("wp:posOffset"@, no_attrs(), "914400"@, false),
    )
}

/// An image at a fixed page position, optionally behind the text.
#[verifier::opaque]
pub open spec fn anchor_xml(rid: Seq<char>, id: u32, alt: Seq<char>, w: u32, h: u32, behind: bool) -> Seq<
    char,
> {
    element(
        "wp:anchor"@,
        anchor_attrs(behind),
        anchor_position_xml() + extent_xml(w, h) + effect_extent_xml() + empty_tag(
            "wp:wrapNone"@,
            no_attrs(),
        ) + doc_pr_xml(id, alt) + graphic_xml(rid, id, alt, w, h),
    )
}

/// The paragraph holding the drawing.
#[verifier::opaque]
pub open spec fn drawing_para(
    rid: Seq<char>,
    id: u32,
    alt: Seq<char>,
    w: u32,
    h: u32,
    mode: Seq<char>,
) -> Seq<char> {
    element(
        "w:p"@,
        no_attrs(),
        element(
            "w:r"@,
            no_attrs(),
            element(
                "w:drawing"@,
                no_attrs(),
                if mode == "anchor"@ || mode == "behind"@ {
                    anchor_xml(rid, id, alt, w, h, mode == "behind"@)
                } else {
                    inline_xml(rid, id, alt, w, h)
                },
            ),
        ),
    )
}

/// Where an image's `src` is read from: an absolute path as it is, a
/// relative one joined onto the base directory when there is one.
pub open spec fn resolved_path(src: Seq<char>, base: Option<Seq<char>>) -> Seq<char> {
    if src.len() > 0 && src[0] == '/' {
        src
    } else {
        match base {
            None => src,
            Some(b) => if b.len() == 0 {
                src
            } else if b.last() == '/' {
                b + src
            } else {
                b + "/"@ + src
            },
        }
    }
}

/// The placeholder reason for an image file that could not be read.
pub open spec fn read_failure(path: Seq<char>, err: Seq<char>) -> Seq<char> {
    "failed to read "@ + path + ": "@ + err
}

/// Resolve an image `src` against the base directory: absolute paths are
/// used verbatim, relative ones joined onto the base.
pub fn resolve_image_path(src: &str, base: Option<&str>) -> (r: String)
    ensures
        r@ == resolved_path(
            src@,
            match base {
                Some(b) => Some(b@),
                None => None,
            },
        ),
{
    let cs = chars_of(src);
    if cs.len() > 0 && cs[0] == '/' {
        return to_owned_string(src);
    }
    match base {
        None => to_owned_string(src),
        Some(b) => {
            let bs = chars_of(b);
            if bs.len() == 0 {
                to_owned_string(src)
            } else if bs[bs.len() - 1] == '/' {
                concat2(b, src)
            } else {
                let mut r = concat2(b, "/");
                push_str(&mut r, src);
                r
            }
        },
    }
}

/// The source the caller read for `src`: the first with that text.
pub open spec fn source_of(srcs: Seq<ImageSource>, src: Seq<char>) -> Option<ImageSource> {
    match first_match(srcs.map_values(|s: ImageSource| s.src@), src) {
        Some(i) => Some(srcs[i]),
        None => None,
    }
}

/// The figure caption below an image with `caption:`, numbered by the
/// figure counter and bookmarked for the list of figures.
pub open spec fn figure_caption_out(b: Block, s: DocState) -> (Seq<char>, DocState) {
    match lookup_str(b.properties@, "caption"@) {
        None => (Seq::empty(), s),
        Some(text) => {
            let n = succ(s.figure_seq);
            (
                caption_para("Figure"@, n, s.next_bookmark, "_Toc_figure_"@ + dec(n as nat), text),
                DocState { figure_seq: n, next_bookmark: succ(s.next_bookmark), ..s },
            )
        },
    }
}

/// Everything an `image` block emits, and the state afterwards. A
/// missing `src`, or a source that could not be read, gives a placeholder
/// paragraph and registers nothing.
pub open spec fn image_out(b: Block, srcs: ImageEnv, s: DocState) -> (Seq<char>, DocState) {
    match lookup_str(b.properties@, "src"@) {
        None => (placeholder_xml("missing src"@), s),
        Some(src) => match source_of(srcs.srcs, src) {
            None => (placeholder_xml("failed to read "@ + src), s),
            Some(source) => match source.data {
                Err(msg) => (placeholder_xml(read_failure(resolved_path(src, srcs.base), msg@)), s),
                Ok(bytes) => {
                    let ext = ext_for(
                        match source.ext {
                            Some(e) => Some(e@),
                            None => None,
                        },
                        bytes@,
                    );
                    let (w, h) = image_size(b);
                    let rid = rid_text(s.run.next_rid);
                    let image = ImageView {
                        rid,
                        zip_path: "word/media/image"@ + dec(next_index(s.images.len())) + "."@ + ext,
                        bytes: bytes@,
                        ext,
                    };
                    let id = s.next_drawing;
                    let alt = match lookup_str(b.properties@, "alt"@) {
                        Some(a) => a,
                        None => "Image"@,
                    };
                    let mode = match lookup_str(b.properties@, "float"@) {
                        Some(f) => f,
                        None => "inline"@,
                    };
                    let s1 = DocState {
                        run: RunState { next_rid: succ(s.run.next_rid), ..s.run },
                        images: s.images.push(image),
                        next_drawing: succ(s.next_drawing),
                        ..s
                    };
                    let (cap, s2) = figure_caption_out(b, s1);
                    (drawing_para(rid, id, alt, w, h, mode) + cap, s2)
                },
            },
        },
    }
}

// ------------------------------------------------------------------
// Emission
// ------------------------------------------------------------------

fn placeholder(x: &mut XmlBuf, reason: &str)
    ensures
        final(x)@ == old(x)@ + placeholder_xml(reason@),
{
    let mut text = concat2("[image: ", reason);
    crate::text::push_char(&mut text, ']');
    proof {
        assert(text@ =~= "[image: "@ + reason@ + seq![']']);
    }
    x.open0("w:p");
    x.open0("w:r");
    x.text0("w:t", text.as_str(), true);
    x.close("w:r");
    x.close("w:p");
}

fn find_source<'a>(srcs: &'a Vec<ImageSource>, src: &str) -> (r: Option<&'a ImageSource>)
    ensures
        match r {
            Some(s) => source_of(srcs@, src@) == Some(*s),
            None => source_of(srcs@, src@) is None,
        },
{
    let ghost keys = srcs@.map_values(|s: ImageSource| s.src@);
    let mut i: usize = 0;
    while i < srcs.len()
        invariant
            i <= srcs@.len(),
            keys == srcs@.map_values(|s: ImageSource| s.src@),
            forall|j: int| 0 <= j < i ==> keys[j] != src@,
        decreases srcs@.len() - i,
    {
        if str_eq(srcs[i].src.as_str(), src) {
            proof {
                lemma_first_match_is(keys, src@, i as int);
            }
            return Some(&srcs[i]);
        }
        i = i + 1;
    }
    proof {
        lemma_first_match(keys, src@);
        match first_match(keys, src@) {
            Some(k) => {
                assert(keys[k] != src@);
            },
            None => {},
        }
    }
    None
}

pub(crate) fn copy_bytes(v: &Vec<u8>) -> (r: Vec<u8>)
    ensures
        r@ == v@,
{
    let mut r: Vec<u8> = Vec::new();
    let mut i: usize = 0;
    while i < v.len()
        invariant
            i <= v@.len(),
            r@ == v@.take(i as int),
        decreases v@.len() - i,
    {
        r.push(v[i]);
        proof {
            assert(v@.take(i + 1) =~= v@.take(i as int).push(v@[i as int]));
        }
        i = i + 1;
    }
    proof {
        assert(v@.take(i as int) =~= v@);
    }
    r
}

fn emit_extent(x: &mut XmlBuf, w: u32, h: u32)
    ensures
        final(x)@ == old(x)@ + extent_xml(w, h),
{
    let cx = u64_to_string(w as u64);
    let cy = u64_to_string(h as u64);
    x.empty2("wp:extent", "cx", cx.as_str(), "cy", cy.as_str());
}

fn effect_extent_into(x: &mut XmlBuf)
    ensures
        final(x)@ == old(x)@ + effect_extent_xml(),
{
    let a: &[(&str, &str)] = &[("l", "0"), ("t", "0"), ("r", "0"), ("b", "0")];
    proof {
        assert(attr_views(a@) =~= seq![("l"@, "0"@), ("t"@, "0"@), ("r"@, "0"@), ("b"@, "0"@)]);
    }
    x.empty("wp:effectExtent", a);
}

fn id_name_descr_into(x: &mut XmlBuf, tag: &str, id: u32, alt: &str)
    ensures
        final(x)@ == old(x)@ + empty_tag(
            tag@,
            seq![("id"@, dec(id as nat)), ("name"@, picture_name(id)), ("descr"@, alt@)],
        ),
{
    let id_s = u64_to_string(id as u64);
    let name = prefixed_number("Picture ", id as u64);
    let a: &[(&str, &str)] = &[("id", id_s.as_str()), ("name", name.as_str()), ("descr", alt)];
    proof {
        assert(attr_views(a@) =~= seq![
            ("id"@, dec(id as nat)),
            ("name"@, picture_name(id)),
            ("descr"@, alt@),
        ]);
    }
    x.empty(tag, a);
}

fn emit_doc_pr(x: &mut XmlBuf, id: u32, alt: &str)
    ensures
        final(x)@ == old(x)@ + doc_pr_xml(id, alt@),
{
    reveal(doc_pr_xml);
    id_name_descr_into(x, "wp:docPr", id, alt);
    x.open0("wp:cNvGraphicFramePr");
    x.empty2(
        "a:graphicFrameLocks",
        "xmlns:a",
        "http://schemas.openxmlformats.org/drawingml/2006/main",
        "noChangeAspect",
        "1",
    );
    x.close("wp:cNvGraphicFramePr");
}

fn emit_nv_pic_pr(x: &mut XmlBuf, id: u32, alt: &str)
    ensures
        final(x)@ == old(x)@ + nv_pic_pr_xml(id, alt@),
{
    x.open0("pic:nvPicPr");
    id_name_descr_into(x, "pic:cNvPr", id, alt);
    x.empty0("pic:cNvPicPr");
    x.close("pic:nvPicPr");
}

fn emit_blip_fill(x: &mut XmlBuf, rid: &str)
    ensures
        final(x)@ == old(x)@ + blip_fill_xml(rid@),
{
    x.open0("pic:blipFill");
    x.empty2(
        "a:blip",
        "xmlns:r",
        "http://schemas.openxmlformats.org/officeDocument/2006/relationships",
        "r:embed",
        rid,
    );
    x.open0("a:stretch");
    x.empty0("a:fillRect");
    x.close("a:stretch");
    x.close("pic:blipFill");
}

fn emit_sp_pr(x: &mut XmlBuf, w: u32, h: u32)
    ensures
        final(x)@ == old(x)@ + sp_pr_xml(w, h),
{
    let cx = u64_to_string(w as u64);
    let cy = u64_to_string(h as u64);
    x.open0("pic:spPr");
    x.open0("a:xfrm");
    x.empty2("a:off", "x", "0", "y", "0");
    x.empty2("a:ext", "cx", cx.as_str(), "cy", cy.as_str());
    x.close("a:xfrm");
    x.open1("a:prstGeom", "prst", "rect");
    x.empty0("a:avLst");
    x.close("a:prstGeom");
    x.close("pic:spPr");
}

fn emit_graphic(x: &mut XmlBuf, rid: &str, id: u32, alt: &str, w: u32, h: u32)
    ensures
        final(x)@ == old(x)@ + graphic_xml(rid@, id, alt@, w, h),
{
    x.open1("a:graphic", "xmlns:a", "http://schemas.openxmlformats.org/drawingml/2006/main");
    x.open1("a:graphicData", "uri", "http://schemas.openxmlformats.org/drawingml/2006/picture");
    x.open1("pic:pic", "xmlns:pic", "http://schemas.openxmlformats.org/drawingml/2006/picture");
    emit_nv_pic_pr(x, id, alt);
    emit_blip_fill(x, rid);
    emit_sp_pr(x, w, h);
    x.close("pic:pic");
    x.close("a:graphicData");
    x.close("a:graphic");
    proof {
        reveal(graphic_xml);
    }
}

fn emit_inline(x: &mut XmlBuf, rid: &str, drawing_id: u32, alt: &str, w_emu: u32, h_emu: u32)
    ensures
        final(x)@ == old(x)@ + inline_xml(rid@, drawing_id, alt@, w_emu, h_emu),
{
    let a: &[(&str, &str)] = &[
        ("xmlns:wp", "http://schemas.openxmlformats.org/drawingml/2006/wordprocessingDrawing"),
        ("distT", "0"),
        ("distB", "0"),
        ("distL", "0"),
        ("distR", "0"),
    ];
    proof {
        assert(attr_views(a@) =~= inline_attrs());
    }
    x.open("wp:inline", a);
    emit_extent(x, w_emu, h_emu);
    effect_extent_into(x);
    emit_doc_pr(x, drawing_id, alt);
    emit_graphic(x, rid, drawing_id, alt, w_emu, h_emu);
    x.close("wp:inline");
    proof {
        reveal(inline_xml);
    }
}

fn anchor_position_into(x: &mut XmlBuf)
    ensures
        final(x)@ == old(x)@ + anchor_position_xml(),
{
    x.empty2("wp:simplePos", "x", "0", "y", "0");
    // Positioning: anchored to the page, centered horizontally and 1in
    // down from the top.
    x.open1("wp:positionH", "relativeFrom", "page");
    x.text0("wp:align", "center", false);
    x.close("wp:positionH");
    x.open1("wp:positionV", "relativeFrom", "page");
    x.text0("wp:posOffset", "914400", false);
    x.close("wp:positionV");
}

fn anchor_open_into(x: &mut XmlBuf, behind: bool)
    ensures
        final(x)@ == old(x)@ + crate::docx::xml::start_tag("wp:anchor"@, anchor_attrs(behind)),
{
    let behind_attr = if behind {
        "1"
    } else {
        "0"
    };
    let a: &[(&str, &str)] = &[
        ("xmlns:wp", "http://schemas.openxmlformats.org/drawingml/2006/wordprocessingDrawing"),
        ("distT", "0"),
        ("distB", "0"),
        ("distL", "0"),
        ("distR", "0"),
        ("simplePos", "0"),
        ("relativeHeight", "1"),
        ("behindDoc", behind_attr),
        ("locked", "0"),
        ("layoutInCell", "1"),
        ("allowOverlap", "1"),
    ];
    proof {
        assert(attr_views(a@) =~= anchor_attrs(behind));
    }
    x.open("wp:anchor", a);
}

fn emit_anchor(
    x: &mut XmlBuf,
    rid: &str,
    drawing_id: u32,
    alt: &str,
    w_emu: u32,
    h_emu: u32,
    behind: bool,
)
    ensures
        final(x)@ == old(x)@ + anchor_xml(rid@, drawing_id, alt@, w_emu, h_emu, behind),
{
    anchor_open_into(x, behind);
    let ghost s1 = x@;
    anchor_position_into(x);
    emit_extent(x, w_emu, h_emu);
    effect_extent_into(x);
    x.empty0("wp:wrapNone");
    emit_doc_pr(x, drawing_id, alt);
    emit_graphic(x, rid, drawing_id, alt, w_emu, h_emu);
    proof {
        assert(x@ =~= s1 + (anchor_position_xml() + extent_xml(w_emu, h_emu) + effect_extent_xml()
            + empty_tag("wp:wrapNone"@, no_attrs()) + doc_pr_xml(drawing_id, alt@) + graphic_xml(
            rid@,
            drawing_id,
            alt@,
            w_emu,
            h_emu,
        )));
    }
    x.close("wp:anchor");
    proof {
        reveal(anchor_xml);
    }
}

fn drawing_para_into(
    x: &mut XmlBuf,
    rid: &str,
    drawing_id: u32,
    alt: &str,
    w_emu: u32,
    h_emu: u32,
    float_mode: &str,
)
    ensures
        final(x)@ == old(x)@ + drawing_para(rid@, drawing_id, alt@, w_emu, h_emu, float_mode@),
{
    x.open0("w:p");
    x.open0("w:r");
    x.open0("w:drawing");
    if str_eq(float_mode, "anchor") || str_eq(float_mode, "behind") {
        emit_anchor(x, rid, drawing_id, alt, w_emu, h_emu, str_eq(float_mode, "behind"));
    } else {
        emit_inline(x, rid, drawing_id, alt, w_emu, h_emu);
    }
    x.close("w:drawing");
    x.close("w:r");
    x.close("w:p");
    proof {
        reveal(drawing_para);
    }
}

/// Advance the figure counter and allocate the caption's bookmark id.
fn next_figure_caption(ctx: &mut EmitCtx) -> (r: (u32, u32))
    ensures
        r.0 == succ(old(ctx).figure_caption_seq),
        r.1 == old(ctx).next_bookmark_id,
        doc_state(*final(ctx)) == (DocState {
            figure_seq: r.0,
            next_bookmark: succ(old(ctx).next_bookmark_id),
            ..doc_state(*old(ctx))
        }),
        doc_frame(*old(ctx), *final(ctx)),
{
    ctx.figure_caption_seq = ctx.figure_caption_seq.wrapping_add(1);
    let seq_n = ctx.figure_caption_seq;
    let bm_id = ctx.alloc_bookmark_id();
    (seq_n, bm_id)
}

fn emit_caption(b: &Block, ctx: &mut EmitCtx, x: &mut XmlBuf)
    ensures
        final(x)@ == old(x)@ + figure_caption_out(*b, doc_state(*old(ctx))).0,
        doc_state(*final(ctx)) == figure_caption_out(*b, doc_state(*old(ctx))).1,
        doc_frame(*old(ctx), *final(ctx)),
{
    let text = match b.prop_str("caption") {
        Some(t) => t,
        None => return,
    };
    let (seq_n, bm_id) = next_figure_caption(ctx);
    let bookmark = prefixed_number("_Toc_figure_", seq_n as u64);
    caption_para_into("Figure", seq_n, bm_id, bookmark.as_str(), text, x);
}

/// Register loaded image bytes and emit the drawing and its caption.
fn render_loaded(b: &Block, ctx: &mut EmitCtx, x: &mut XmlBuf, bytes: Vec<u8>, path_ext: Option<&str>)
    ensures
        ({
            let s = doc_state(*old(ctx));
            let ext = ext_for(
                match path_ext {
                    Some(e) => Some(e@),
                    None => None,
                },
                bytes@,
            );
            let (w, h) = image_size(*b);
            let rid = rid_text(s.run.next_rid);
            let image = ImageView {
                rid,
                zip_path: "word/media/image"@ + dec(next_index(s.images.len())) + "."@ + ext,
                bytes: bytes@,
                ext,
            };
            let alt = match lookup_str(b.properties@, "alt"@) {
                Some(a) => a,
                None => "Image"@,
            };
            let mode = match lookup_str(b.properties@, "float"@) {
                Some(f) => f,
                None => "inline"@,
            };
            let s1 = DocState {
                run: RunState { next_rid: succ(s.run.next_rid), ..s.run },
                images: s.images.push(image),
                next_drawing: succ(s.next_drawing),
                ..s
            };
            let (cap, s2) = figure_caption_out(*b, s1);
            &&& final(x)@ == old(x)@ + drawing_para(rid, s.next_drawing, alt, w, h, mode) + cap
            &&& doc_state(*final(ctx)) == s2
        }),
        doc_frame(*old(ctx), *final(ctx)),
{
    let ghost bytes_v = bytes@;
    let ext = detect_ext(path_ext, bytes.as_slice());
    let (w_emu, h_emu) = resolve_size(b);
    let ghost s0 = doc_state(*ctx);
    let rid = ctx.add_image(bytes, ext);
    proof {
        assert(image_views(ctx.images@) =~= s0.images.push(
            ImageView {
                rid: rid@,
                zip_path: "word/media/image"@ + dec(next_index(s0.images.len())) + "."@ + ext@,
                bytes: bytes_v,
                ext: ext@,
            },
        ));
    }
    let drawing_id = ctx.alloc_drawing_id();
    let alt = match b.prop_str("alt") {
        Some(a) => a,
        None => "Image",
    };
    let float_mode = match b.prop_str("float") {
        Some(f) => f,
        None => "inline",
    };
    drawing_para_into(x, rid.as_str(), drawing_id, alt, w_emu, h_emu, float_mode);
    emit_caption(b, ctx, x);
}

/// Render an `image` block: registers the image in the context and
/// emits the `<w:p><w:r><w:drawing>…` fragment, plus an optional
/// Caption-styled paragraph.
///
/// When the bytes could not be read, emits a placeholder
/// `[image: <reason>]` paragraph rather than aborting export.
#[verifier::rlimit(60)]
pub fn render_image(b: &Block, ctx: &mut EmitCtx, x: &mut XmlBuf)
    ensures
        final(x)@ == old(x)@ + image_out(*b, image_env(*old(ctx)), doc_state(*old(ctx))).0,
        doc_state(*final(ctx)) == image_out(*b, crate::docx2::emit::ctx::image_env(*old(ctx)), doc_state(*old(ctx))).1,
        doc_frame(*old(ctx), *final(ctx)),
{
    let src = match b.prop_str("src") {
        Some(s) => s,
        None => {
            placeholder(x, "missing src");
            return;
        },
    };
    let source = match find_source(&ctx.image_sources, src) {
        Some(s) => s,
        None => {
            let reason = concat2("failed to read ", src);
            placeholder(x, reason.as_str());
            return;
        },
    };
    let bytes = match &source.data {
        Ok(b) => copy_bytes(b),
        Err(msg) => {
            let base = match &ctx.image_base {
                Some(b) => Some(b.as_str()),
                None => None,
            };
            let path = resolve_image_path(src, base);
            let mut reason = concat2("failed to read ", path.as_str());
            push_str(&mut reason, ": ");
            push_str(&mut reason, msg.as_str());
            placeholder(x, reason.as_str());
            return;
        },
    };
    let path_ext = match &source.ext {
        Some(e) => Some(to_owned_string(e.as_str())),
        None => None,
    };
    let pe = match &path_ext {
        Some(e) => Some(e.as_str()),
        None => None,
    };
    render_loaded(b, ctx, x, bytes, pe);
}

} // verus!
