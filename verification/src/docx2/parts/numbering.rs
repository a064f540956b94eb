//! `word/numbering.xml` — bullet, ordered, and heading multilevel
//! list definitions.
//!
//! Three numIds:
//! - 1 → ordered list, 9 decimal levels.
//! - 2 → unordered list, 9 bullet levels.
//! - 3 → heading multilevel (1., 1.1, 1.1.1, ...) pStyle-linked
//!   to Heading1..6 so paragraphs styled `Heading1` automatically
//!   get the corresponding numbering when their `<w:numPr>` ties
//!   into this list.
//!
//! Schema order for `<w:lvl>` children:
//!   start → numFmt → lvlRestart → pStyle → isLgl → suff →
//!   lvlText → lvlPicBulletId → legacy → lvlJc → pPr → rPr

use vstd::prelude::*;

use crate::docx::parts::web_settings::ns_w;
use crate::docx::xml::{
    attr1, attr2, attr_views, element, empty_tag, group_concat, no_attrs, xml_declaration, XmlBuf,
};
use crate::text::{dec, prefixed_number, push_char, push_dec, push_str, u64_to_string};

verus! {

broadcast use group_concat;

/// numIds: 1+2 are used by ordered/unordered lists; 3 is the heading
/// list.
pub const NUM_ID_ORDERED: u32 = 1;

pub const NUM_ID_UNORDERED: u32 = 2;

pub const NUM_ID_HEADING: u32 = 3;

/// Deepest heading level (`h1` .. `h6`).
pub const MAX_HEADING_LEVEL: u32 = 6;

#[derive(Clone, Copy, PartialEq, Eq, Structural)]
pub enum LvlKind {
    Decimal,
    Bullet,
    HeadingMultilevel { level: u32 },
}

/// `%1.%2. ... .%<n+1>`: the heading number pattern of level `n`.
pub open spec fn heading_pattern(n: nat) -> Seq<char>
    decreases n,
{
    if n == 0 {
        "%1"@
    } else {
        heading_pattern((n - 1) as nat) + seq!['.', '%'] + dec(n + 1)
    }
}

/// The `w:lvlText` of a level. The top heading level gets a trailing
/// dot ("1."), deeper levels don't ("1.1").
pub open spec fn lvl_text(ilvl: u32, kind: LvlKind) -> Seq<char> {
    match kind {
        LvlKind::Bullet => seq!['\u{2022}'],
        LvlKind::Decimal => seq!['%'] + dec((ilvl + 1) as nat) + seq!['.'],
        LvlKind::HeadingMultilevel { level } => heading_pattern(level as nat) + if level == 0 {
            seq!['.']
        } else {
            Seq::empty()
        },
    }
}

/// `start`, `numFmt` and, on the heading list, `pStyle`.
pub open spec fn lvl_head(kind: LvlKind) -> Seq<char> {
    empty_tag("w:start"@, attr1("w:val"@, "1"@)) + empty_tag(
        "w:numFmt"@,
        attr1(
            "w:val"@,
            if kind is Bullet {
                "bullet"@
            } else {
                "decimal"@
            },
        ),
    ) + match kind {
        LvlKind::HeadingMultilevel { level } => empty_tag(
            "w:pStyle"@,
            attr1("w:val"@, "Heading"@ + dec((level + 1) as nat)),
        ),
        _ => Seq::empty(),
    }
}

/// The level's indentation.
pub open spec fn lvl_ppr(ind_left: u32, hanging: u32) -> Seq<char> {
    element(
        "w:pPr"@,
        no_attrs(),
        empty_tag("w:ind"@, attr2("w:left"@, dec(ind_left as nat), "w:hanging"@, dec(hanging as nat))),
    )
}

/// The Symbol font hint of bullet levels.
pub open spec fn lvl_rpr(kind: LvlKind) -> Seq<char> {
    if kind is Bullet {
        element(
            "w:rPr"@,
            no_attrs(),
            empty_tag(
                "w:rFonts"@,
                seq![("w:ascii"@, "Symbol"@), ("w:hAnsi"@, "Symbol"@), ("w:hint"@, "default"@)],
            ),
        )
    } else {
        Seq::empty()
    }
}

/// One `<w:lvl>`.
#[verifier::opaque]
pub open spec fn lvl_xml(ilvl: u32, kind: LvlKind, ind_left: u32, hanging: u32) -> Seq<char> {
    element(
        "w:lvl"@,
        attr1("w:ilvl"@, dec(ilvl as nat)),
        lvl_head(kind) + empty_tag("w:lvlText"@, attr1("w:val"@, lvl_text(ilvl, kind))) + empty_tag(
            "w:lvlJc"@,
            attr1("w:val"@, "left"@),
        ) + lvl_ppr(ind_left, hanging) + lvl_rpr(kind),
    )
}

/// Levels `0..n` of a hybrid list: indent 720 per level, 360 hanging.
pub open spec fn hybrid_levels(kind: LvlKind, n: nat) -> Seq<char>
    decreases n,
{
    if n == 0 {
        Seq::empty()
    } else {
        hybrid_levels(kind, (n - 1) as nat) + lvl_xml(
            (n - 1) as u32,
            kind,
            (720 * n) as u32,
            360,
        )
    }
}

/// Levels `0..n` of the heading list.
pub open spec fn heading_levels(n: nat) -> Seq<char>
    decreases n,
{
    if n == 0 {
        Seq::empty()
    } else {
        heading_levels((n - 1) as nat) + lvl_xml(
            (n - 1) as u32,
            LvlKind::HeadingMultilevel { level: (n - 1) as u32 },
            0,
            360,
        )
    }
}

/// One `<w:abstractNum>`.
pub open spec fn abstract_xml(id: u32, multi: Seq<char>, levels: Seq<char>) -> Seq<char> {
    element(
        "w:abstractNum"@,
        attr1("w:abstractNumId"@, dec(id as nat)),
        empty_tag("w:multiLevelType"@, attr1("w:val"@, multi)) + levels,
    )
}

/// One `<w:num>` tying a numId to its abstract definition.
pub open spec fn num_xml(num_id: u32, abstract_id: u32) -> Seq<char> {
    element(
        "w:num"@,
        attr1("w:numId"@, dec(num_id as nat)),
        empty_tag("w:abstractNumId"@, attr1("w:val"@, dec(abstract_id as nat))),
    )
}

/// The whole part.
pub open spec fn numbering_xml() -> Seq<char> {
    xml_declaration() + element(
        "w:numbering"@,
        attr1("xmlns:w"@, ns_w()),
        abstract_xml(1, "hybridMultilevel"@, hybrid_levels(LvlKind::Decimal, 9)) + abstract_xml(
            2,
            "hybridMultilevel"@,
            hybrid_levels(LvlKind::Bullet, 9),
        ) + abstract_xml(3, "multilevel"@, heading_levels(MAX_HEADING_LEVEL as nat)) + num_xml(
            NUM_ID_ORDERED,
            1,
        ) + num_xml(NUM_ID_UNORDERED, 2) + num_xml(NUM_ID_HEADING, 3),
    )
}

pub fn numbering() -> (s: String)
    ensures
        s@ == numbering_xml(),
{
    let mut x = XmlBuf::new();
    x.xml_decl();
    x.open1("w:numbering", "xmlns:w", "http://schemas.openxmlformats.org/wordprocessingml/2006/main");
    let ghost s1 = x@;
    render_abstract_hybrid(&mut x, 1, LvlKind::Decimal);
    render_abstract_hybrid(&mut x, 2, LvlKind::Bullet);
    render_abstract_heading(&mut x, 3);
    // <w:num> entries (must come after all <w:abstractNum>):
    render_num(&mut x, NUM_ID_ORDERED, 1);
    render_num(&mut x, NUM_ID_UNORDERED, 2);
    render_num(&mut x, NUM_ID_HEADING, 3);
    proof {
        assert(x@ =~= s1 + (abstract_xml(1, "hybridMultilevel"@, hybrid_levels(LvlKind::Decimal, 9))
            + abstract_xml(2, "hybridMultilevel"@, hybrid_levels(LvlKind::Bullet, 9))
            + abstract_xml(3, "multilevel"@, heading_levels(MAX_HEADING_LEVEL as nat)) + num_xml(
            NUM_ID_ORDERED,
            1,
        ) + num_xml(NUM_ID_UNORDERED, 2) + num_xml(NUM_ID_HEADING, 3)));
    }
    x.close("w:numbering");
    x.finish()
}

/// 9-level list with the same kind at every level: "1." decimals or
/// "•" bullets (each level resets to 1 at its own scope; Word handles
/// the actual reset semantics).
fn render_abstract_hybrid(x: &mut XmlBuf, abstract_id: u32, kind: LvlKind)
    requires
        !(kind is HeadingMultilevel),
    ensures
        final(x)@ == old(x)@ + abstract_xml(abstract_id, "hybridMultilevel"@, hybrid_levels(kind, 9)),
{
    let id_s = u64_to_string(abstract_id as u64);
    x.open1("w:abstractNum", "w:abstractNumId", id_s.as_str());
    let ghost s1 = x@;
    x.empty1("w:multiLevelType", "w:val", "hybridMultilevel");
    let ghost s2 = x@;
    let mut lvl: u32 = 0;
    while lvl < 9
        invariant
            lvl <= 9,
            !(kind is HeadingMultilevel),
            x@ == s2 + hybrid_levels(kind, lvl as nat),
        decreases 9 - lvl,
    {
        render_lvl(x, lvl, kind, 720 * (lvl + 1), 360);
        lvl = lvl + 1;
    }
    proof {
        assert(x@ =~= s1 + (empty_tag("w:multiLevelType"@, attr1("w:val"@, "hybridMultilevel"@))
            + hybrid_levels(kind, 9)));
    }
    x.close("w:abstractNum");
}

/// Heading multilevel: level 0 emits "1.", level 1 "1.1", level 2
/// "1.1.1", up to `MAX_HEADING_LEVEL`. pStyle-linked to Heading{N}
/// so Word draws the numbering automatically on heading paragraphs.
fn render_abstract_heading(x: &mut XmlBuf, abstract_id: u32)
    ensures
        final(x)@ == old(x)@ + abstract_xml(
            abstract_id,
            "multilevel"@,
            heading_levels(MAX_HEADING_LEVEL as nat),
        ),
{
    let id_s = u64_to_string(abstract_id as u64);
    x.open1("w:abstractNum", "w:abstractNumId", id_s.as_str());
    let ghost s1 = x@;
    x.empty1("w:multiLevelType", "w:val", "multilevel");
    let ghost s2 = x@;
    let mut lvl: u32 = 0;
    while lvl < MAX_HEADING_LEVEL
        invariant
            lvl <= MAX_HEADING_LEVEL,
            x@ == s2 + heading_levels(lvl as nat),
        decreases MAX_HEADING_LEVEL - lvl,
    {
        render_lvl(x, lvl, LvlKind::HeadingMultilevel { level: lvl }, 0, 360);
        lvl = lvl + 1;
    }
    proof {
        assert(x@ =~= s1 + (empty_tag("w:multiLevelType"@, attr1("w:val"@, "multilevel"@))
            + heading_levels(MAX_HEADING_LEVEL as nat)));
    }
    x.close("w:abstractNum");
}

/// `%1.%2...%<level+1>`, with a trailing dot at the top level.
fn heading_lvl_text(level: u32) -> (t: String)
    requires
        level < MAX_HEADING_LEVEL,
    ensures
        t@ == lvl_text(level, LvlKind::HeadingMultilevel { level }),
{
    let mut t = String::new();
    let mut i: u32 = 0;
    while i <= level
        invariant
            i <= level + 1,
            level < MAX_HEADING_LEVEL,
            i == 0 ==> t@ == Seq::<char>::empty(),
            i > 0 ==> t@ == heading_pattern((i - 1) as nat),
        decreases level + 1 - i,
    {
        if i > 0 {
            push_char(&mut t, '.');
        }
        push_char(&mut t, '%');
        push_dec(&mut t, (i + 1) as u64);
        proof {
            if i == 0 {
                reveal_strlit("%1");
                assert(dec(1) == seq!['1']);
                assert(t@ =~= heading_pattern(0));
            } else {
                assert(t@ =~= heading_pattern(i as nat));
            }
        }
        i = i + 1;
    }
    // Top level gets a trailing dot ("1."), deeper levels don't
    // ("1.1" rather than "1.1.").
    if level == 0 {
        push_char(&mut t, '.');
    }
    proof {
        assert(t@ =~= lvl_text(level, LvlKind::HeadingMultilevel { level }));
    }
    t
}

fn level_text(ilvl: u32, kind: LvlKind) -> (t: String)
    requires
        ilvl < 9,
        kind matches LvlKind::HeadingMultilevel { level } ==> level < MAX_HEADING_LEVEL,
    ensures
        t@ == lvl_text(ilvl, kind),
{
    match kind {
        LvlKind::Bullet => {
            let mut t = String::new();
            push_char(&mut t, '\u{2022}');
            proof {
                assert(t@ =~= lvl_text(ilvl, kind));
            }
            t
        },
        LvlKind::Decimal => {
            let mut t = prefixed_number("%", (ilvl + 1) as u64);
            push_char(&mut t, '.');
            proof {
                reveal_strlit("%");
                assert(t@ =~= lvl_text(ilvl, kind));
            }
            t
        },
        LvlKind::HeadingMultilevel { level } => heading_lvl_text(level),
    }
}

fn lvl_head_into(x: &mut XmlBuf, kind: LvlKind)
    requires
        kind matches LvlKind::HeadingMultilevel { level } ==> level < MAX_HEADING_LEVEL,
    ensures
        final(x)@ == old(x)@ + lvl_head(kind),
{
    // 1. start
    x.empty1("w:start", "w:val", "1");
    // 2. numFmt
    let fmt = match kind {
        LvlKind::Bullet => "bullet",
        LvlKind::Decimal | LvlKind::HeadingMultilevel { .. } => "decimal",
    };
    x.empty1("w:numFmt", "w:val", fmt);
    // 4. pStyle (heading multilevel links each level to a style)
    if let LvlKind::HeadingMultilevel { level } = kind {
        let pstyle = prefixed_number("Heading", (level + 1) as u64);
        x.empty1("w:pStyle", "w:val", pstyle.as_str());
    }
}

fn lvl_ppr_into(x: &mut XmlBuf, ind_left: u32, hanging: u32)
    ensures
        final(x)@ == old(x)@ + lvl_ppr(ind_left, hanging),
{
    let left_s = u64_to_string(ind_left as u64);
    let hanging_s = u64_to_string(hanging as u64);
    x.open0("w:pPr");
    x.empty2("w:ind", "w:left", left_s.as_str(), "w:hanging", hanging_s.as_str());
    x.close("w:pPr");
}

fn lvl_rpr_into(x: &mut XmlBuf, kind: LvlKind)
    ensures
        final(x)@ == old(x)@ + lvl_rpr(kind),
{
    if let LvlKind::Bullet = kind {
        x.open0("w:rPr");
        let a: &[(&str, &str)] = &[("w:ascii", "Symbol"), ("w:hAnsi", "Symbol"), ("w:hint", "default")];
        proof {
            assert(attr_views(a@) =~= seq![
                ("w:ascii"@, "Symbol"@),
                ("w:hAnsi"@, "Symbol"@),
                ("w:hint"@, "default"@),
            ]);
        }
        x.empty("w:rFonts", a);
        x.close("w:rPr");
    }
}

fn render_lvl(x: &mut XmlBuf, ilvl: u32, kind: LvlKind, ind_left: u32, hanging: u32)
    requires
        ilvl < 9,
        kind matches LvlKind::HeadingMultilevel { level } ==> level < MAX_HEADING_LEVEL,
    ensures
        final(x)@ == old(x)@ + lvl_xml(ilvl, kind, ind_left, hanging),
{
    let ilvl_s = u64_to_string(ilvl as u64);
    x.open1("w:lvl", "w:ilvl", ilvl_s.as_str());
    let ghost s1 = x@;
    lvl_head_into(x, kind);
    // 7. lvlText
    let text = level_text(ilvl, kind);
    x.empty1("w:lvlText", "w:val", text.as_str());
    // 10. lvlJc
    x.empty1("w:lvlJc", "w:val", "left");
    // 11. pPr — indentation
    lvl_ppr_into(x, ind_left, hanging);
    // 12. rPr — for bullet levels, set Symbol font hint so the
    // bullet glyph renders consistently across systems.
    lvl_rpr_into(x, kind);
    proof {
        assert(x@ =~= s1 + (lvl_head(kind) + empty_tag("w:lvlText"@, attr1("w:val"@, lvl_text(ilvl, kind)))
            + empty_tag("w:lvlJc"@, attr1("w:val"@, "left"@)) + lvl_ppr(ind_left, hanging) + lvl_rpr(
            kind,
        )));
        reveal(lvl_xml);
    }
    x.close("w:lvl");
}

fn render_num(x: &mut XmlBuf, num_id: u32, abstract_id: u32)
    ensures
        final(x)@ == old(x)@ + num_xml(num_id, abstract_id),
{
    let n = u64_to_string(num_id as u64);
    let a = u64_to_string(abstract_id as u64);
    x.open1("w:num", "w:numId", n.as_str());
    x.empty1("w:abstractNumId", "w:val", a.as_str());
    x.close("w:num");
}

} // verus!
