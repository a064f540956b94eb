//! `word/styles.xml` — paragraph + character style set referenced
//! by document body and TOC/LoT/LoF emission.
//!
//! Children are emitted in strict schema order on the first pass — the
//! order is encoded in the `Style` builder's `render` method, not in
//! caller code.
//!
//! Schema order summary (CT_Style):
//!   name → basedOn → next → link → autoRedefine → hidden →
//!   uiPriority → semiHidden → unhideWhenUsed → qFormat → locked →
//!   personal{,Compose,Reply} → rsid → pPr → rPr → tblPr → trPr →
//!   tcPr → tblStylePr
//!
//! Within `<w:pPr>` (the slots we use):
//!   keepNext → keepLines → pBdr → spacing → ind → contextualSpacing →
//!   jc → outlineLvl
//!
//! Within `<w:rPr>` (the slots we use):
//!   rFonts → b → bCs → i → iCs → strike → color → sz → szCs →
//!   u → vertAlign

use vstd::prelude::*;

use crate::docx::xml::{
    attr1, attr_views, element, empty_tag, group_concat, no_attrs, xml_declaration, XmlBuf,
};

use super::web_settings::ns_w;
use crate::docx2::emit::ctx::{override_views, OverrideView, StyleOverride};
use crate::keys::{first_match, lemma_first_match, lemma_first_match_is};
use crate::text::{dec, ov, prefixed_number, str_eq, to_owned_string, u64_to_string};

verus! {

broadcast use group_concat;

// ------------------------------------------------------------------
// Property records
// ------------------------------------------------------------------

/// Run properties — character-level formatting. Used inside a
/// style's `<w:rPr>`.
#[derive(Clone)]
pub struct RPr {
    pub fonts: Option<Fonts>,
    pub bold: bool,
    pub italic: bool,
    pub strike: bool,
    /// "auto" or 6-hex RGB ("0563C1").
    pub color: Option<String>,
    /// Half-points.
    pub size_hp: Option<u32>,
    /// "single", "double", "none", ...
    pub underline: Option<String>,
    /// "superscript", "subscript", or None for baseline.
    pub vert_align: Option<String>,
}

#[derive(Clone)]
pub struct Fonts {
    pub ascii: Option<String>,
    pub hi_ansi: Option<String>,
    /// Theme alias — e.g. "majorHAnsi" or "minorHAnsi". When set,
    /// overrides the literal `ascii`/`hi_ansi` if a reader resolves
    /// themes.
    pub ascii_theme: Option<String>,
    pub h_ansi_theme: Option<String>,
    pub east_asia_theme: Option<String>,
    pub cs_theme: Option<String>,
}

/// Paragraph properties — block-level formatting. Used inside a
/// style's `<w:pPr>`.
#[derive(Clone)]
pub struct PPr {
    pub keep_next: bool,
    pub keep_lines: bool,
    /// (before, after, line) all in twentieths of a point. `line`
    /// is paired with line_rule "auto".
    pub spacing: Option<Spacing>,
    /// Left, hanging and first-line indents in twentieths of a point.
    pub ind: Option<Indent>,
    /// "left", "center", "right", "both".
    pub jc: Option<String>,
    /// 0..=8 for Heading1..Heading9.
    pub outline_lvl: Option<u32>,
    /// Contextual spacing — collapse "after" spacing when this and
    /// the next paragraph share a style. Used on ListParagraph.
    pub contextual_spacing: bool,
    /// When true, the style's pPr emits a single-line `<w:pBdr>`
    /// with a top border.
    pub border_top: bool,
}

#[derive(Clone, Copy, PartialEq, Eq, Structural)]
pub struct Spacing {
    pub before: Option<u32>,
    pub after: Option<u32>,
    pub line: Option<u32>,
}

#[derive(Clone, Copy, PartialEq, Eq, Structural)]
pub struct Indent {
    pub left: Option<u32>,
    pub hanging: Option<u32>,
    pub first_line: Option<u32>,
}

#[derive(Clone, Copy, PartialEq, Eq, Structural)]
pub enum StyleType {
    Paragraph,
    Character,
    Table,
    Numbering,
}

/// The `w:type` attribute value of a style kind.
pub open spec fn style_type_name(k: StyleType) -> Seq<char> {
    match k {
        StyleType::Paragraph => "paragraph"@,
        StyleType::Character => "character"@,
        StyleType::Table => "table"@,
        StyleType::Numbering => "numbering"@,
    }
}

impl StyleType {
    fn attr(self) -> (r: &'static str)
        ensures
            r@ == style_type_name(self),
    {
        match self {
            Self::Paragraph => "paragraph",
            Self::Character => "character",
            Self::Table => "table",
            Self::Numbering => "numbering",
        }
    }
}

/// Spacing with nothing set.
pub open spec fn no_spacing() -> Spacing {
    Spacing { before: None, after: None, line: None }
}

/// Indent with nothing set.
pub open spec fn no_indent() -> Indent {
    Indent { left: None, hanging: None, first_line: None }
}

impl Default for Spacing {
    fn default() -> (s: Self)
        ensures
            s == no_spacing(),
    {
        Spacing { before: None, after: None, line: None }
    }
}

impl Default for Indent {
    fn default() -> (s: Self)
        ensures
            s == no_indent(),
    {
        Indent { left: None, hanging: None, first_line: None }
    }
}

// ------------------------------------------------------------------
// Plain-value views
// ------------------------------------------------------------------

pub struct FontsView {
    pub ascii: Option<Seq<char>>,
    pub hi_ansi: Option<Seq<char>>,
    pub ascii_theme: Option<Seq<char>>,
    pub h_ansi_theme: Option<Seq<char>>,
    pub east_asia_theme: Option<Seq<char>>,
    pub cs_theme: Option<Seq<char>>,
}

pub struct RPrView {
    pub fonts: Option<FontsView>,
    pub bold: bool,
    pub italic: bool,
    pub strike: bool,
    pub color: Option<Seq<char>>,
    pub size_hp: Option<u32>,
    pub underline: Option<Seq<char>>,
    pub vert_align: Option<Seq<char>>,
}

pub struct PPrView {
    pub keep_next: bool,
    pub keep_lines: bool,
    pub spacing: Option<Spacing>,
    pub ind: Option<Indent>,
    pub jc: Option<Seq<char>>,
    pub outline_lvl: Option<u32>,
    pub contextual_spacing: bool,
    pub border_top: bool,
}

impl View for Fonts {
    type V = FontsView;

    open spec fn view(&self) -> FontsView {
        FontsView {
            ascii: ov(self.ascii),
            hi_ansi: ov(self.hi_ansi),
            ascii_theme: ov(self.ascii_theme),
            h_ansi_theme: ov(self.h_ansi_theme),
            east_asia_theme: ov(self.east_asia_theme),
            cs_theme: ov(self.cs_theme),
        }
    }
}

impl View for RPr {
    type V = RPrView;

    open spec fn view(&self) -> RPrView {
        RPrView {
            fonts: match self.fonts {
                Some(f) => Some(f@),
                None => None,
            },
            bold: self.bold,
            italic: self.italic,
            strike: self.strike,
            color: ov(self.color),
            size_hp: self.size_hp,
            underline: ov(self.underline),
            vert_align: ov(self.vert_align),
        }
    }
}

impl View for PPr {
    type V = PPrView;

    open spec fn view(&self) -> PPrView {
        PPrView {
            keep_next: self.keep_next,
            keep_lines: self.keep_lines,
            spacing: self.spacing,
            ind: self.ind,
            jc: ov(self.jc),
            outline_lvl: self.outline_lvl,
            contextual_spacing: self.contextual_spacing,
            border_top: self.border_top,
        }
    }
}

/// Fonts with nothing set.
pub open spec fn no_fonts() -> FontsView {
    FontsView {
        ascii: None,
        hi_ansi: None,
        ascii_theme: None,
        h_ansi_theme: None,
        east_asia_theme: None,
        cs_theme: None,
    }
}

/// Run properties with nothing set.
pub open spec fn no_rpr() -> RPrView {
    RPrView {
        fonts: None,
        bold: false,
        italic: false,
        strike: false,
        color: None,
        size_hp: None,
        underline: None,
        vert_align: None,
    }
}

/// Paragraph properties with nothing set.
pub open spec fn no_ppr() -> PPrView {
    PPrView {
        keep_next: false,
        keep_lines: false,
        spacing: None,
        ind: None,
        jc: None,
        outline_lvl: None,
        contextual_spacing: false,
        border_top: false,
    }
}

impl Default for Fonts {
    fn default() -> (f: Self)
        ensures
            f@ == no_fonts(),
    {
        Fonts {
            ascii: None,
            hi_ansi: None,
            ascii_theme: None,
            h_ansi_theme: None,
            east_asia_theme: None,
            cs_theme: None,
        }
    }
}

impl Default for RPr {
    fn default() -> (r: Self)
        ensures
            r@ == no_rpr(),
    {
        RPr {
            fonts: None,
            bold: false,
            italic: false,
            strike: false,
            color: None,
            size_hp: None,
            underline: None,
            vert_align: None,
        }
    }
}

impl Default for PPr {
    fn default() -> (p: Self)
        ensures
            p@ == no_ppr(),
    {
        PPr {
            keep_next: false,
            keep_lines: false,
            spacing: None,
            ind: None,
            jc: None,
            outline_lvl: None,
            contextual_spacing: false,
            border_top: false,
        }
    }
}

// ------------------------------------------------------------------
// What each record serializes to
// ------------------------------------------------------------------

/// `k="v"` when `v` is set.
pub open spec fn opt_attr(k: Seq<char>, v: Option<Seq<char>>) -> Seq<(Seq<char>, Seq<char>)> {
    match v {
        Some(s) => seq![(k, s)],
        None => Seq::empty(),
    }
}

/// `k="n"` (decimal) when `n` is set.
pub open spec fn opt_num_attr(k: Seq<char>, v: Option<u32>) -> Seq<(Seq<char>, Seq<char>)> {
    match v {
        Some(n) => seq![(k, dec(n as nat))],
        None => Seq::empty(),
    }
}

/// `<name/>` when `on`.
pub open spec fn flag_xml(on: bool, name: Seq<char>) -> Seq<char> {
    if on {
        empty_tag(name, no_attrs())
    } else {
        Seq::empty()
    }
}

/// `<name w:val="v"/>` when `v` is set.
pub open spec fn opt_val_xml(name: Seq<char>, v: Option<Seq<char>>) -> Seq<char> {
    match v {
        Some(s) => empty_tag(name, attr1("w:val"@, s)),
        None => Seq::empty(),
    }
}

/// `<name w:val="n"/>` (decimal) when `n` is set.
pub open spec fn opt_num_val_xml(name: Seq<char>, v: Option<u32>) -> Seq<char> {
    match v {
        Some(n) => empty_tag(name, attr1("w:val"@, dec(n as nat))),
        None => Seq::empty(),
    }
}

/// The `<w:rFonts>` attributes, in schema order.
pub open spec fn fonts_attrs(f: FontsView) -> Seq<(Seq<char>, Seq<char>)> {
    opt_attr("w:ascii"@, f.ascii) + opt_attr("w:hAnsi"@, f.hi_ansi) + opt_attr(
        "w:asciiTheme"@,
        f.ascii_theme,
    ) + opt_attr("w:hAnsiTheme"@, f.h_ansi_theme) + opt_attr("w:eastAsiaTheme"@, f.east_asia_theme)
        + opt_attr("w:cstheme"@, f.cs_theme)
}

/// The children of `<w:rPr>`.
pub open spec fn rpr_children(r: RPrView) -> Seq<char> {
    (match r.fonts {
        Some(f) => empty_tag("w:rFonts"@, fonts_attrs(f)),
        None => Seq::empty(),
    }) + (if r.bold {
        empty_tag("w:b"@, no_attrs()) + empty_tag("w:bCs"@, no_attrs())
    } else {
        Seq::empty()
    }) + (if r.italic {
        empty_tag("w:i"@, no_attrs()) + empty_tag("w:iCs"@, no_attrs())
    } else {
        Seq::empty()
    }) + flag_xml(r.strike, "w:strike"@) + opt_val_xml("w:color"@, r.color) + (match r.size_hp {
        Some(n) => empty_tag("w:sz"@, attr1("w:val"@, dec(n as nat))) + empty_tag(
            "w:szCs"@,
            attr1("w:val"@, dec(n as nat)),
        ),
        None => Seq::empty(),
    }) + opt_val_xml("w:u"@, r.underline) + opt_val_xml("w:vertAlign"@, r.vert_align)
}

/// `<w:rPr>` with its children.
pub open spec fn rpr_xml(r: RPrView) -> Seq<char> {
    element("w:rPr"@, no_attrs(), rpr_children(r))
}

/// The `<w:spacing>` attributes; `line` always comes with `lineRule="auto"`.
pub open spec fn spacing_attrs(s: Spacing) -> Seq<(Seq<char>, Seq<char>)> {
    opt_num_attr("w:before"@, s.before) + opt_num_attr("w:after"@, s.after) + match s.line {
        Some(n) => seq![("w:line"@, dec(n as nat)), ("w:lineRule"@, "auto"@)],
        None => Seq::empty(),
    }
}

/// The `<w:ind>` attributes.
pub open spec fn indent_attrs(i: Indent) -> Seq<(Seq<char>, Seq<char>)> {
    opt_num_attr("w:left"@, i.left) + opt_num_attr("w:hanging"@, i.hanging) + opt_num_attr(
        "w:firstLine"@,
        i.first_line,
    )
}

/// The single-line top border.
pub open spec fn border_top_xml() -> Seq<char> {
    element(
        "w:pBdr"@,
        no_attrs(),
        empty_tag(
            "w:top"@,
            seq![
                ("w:val"@, "single"@),
                ("w:sz"@, "4"@),
                ("w:space"@, "1"@),
                ("w:color"@, "auto"@),
            ],
        ),
    )
}

/// The children of `<w:pPr>`.
pub open spec fn ppr_children(p: PPrView) -> Seq<char> {
    flag_xml(p.keep_next, "w:keepNext"@) + flag_xml(p.keep_lines, "w:keepLines"@) + (if p.border_top {
        border_top_xml()
    } else {
        Seq::empty()
    }) + (match p.spacing {
        Some(s) => empty_tag("w:spacing"@, spacing_attrs(s)),
        None => Seq::empty(),
    }) + (match p.ind {
        Some(i) => empty_tag("w:ind"@, indent_attrs(i)),
        None => Seq::empty(),
    }) + flag_xml(p.contextual_spacing, "w:contextualSpacing"@) + opt_val_xml("w:jc"@, p.jc)
        + opt_num_val_xml("w:outlineLvl"@, p.outline_lvl)
}

/// `<w:pPr>` with its children.
pub open spec fn ppr_xml(p: PPrView) -> Seq<char> {
    element("w:pPr"@, no_attrs(), ppr_children(p))
}

// ------------------------------------------------------------------
// Serializers
// ------------------------------------------------------------------

fn flag_into(x: &mut XmlBuf, on: bool, name: &str)
    ensures
        final(x)@ == old(x)@ + flag_xml(on, name@),
{
    if on {
        x.empty0(name);
    }
}

fn opt_val_into(x: &mut XmlBuf, name: &str, v: &Option<String>)
    ensures
        final(x)@ == old(x)@ + opt_val_xml(name@, ov(*v)),
{
    match v {
        Some(s) => x.empty1(name, "w:val", s.as_str()),
        None => {},
    }
}

fn num_val_into(x: &mut XmlBuf, name: &str, v: Option<u32>)
    ensures
        final(x)@ == old(x)@ + opt_num_val_xml(name@, v),
{
    match v {
        Some(n) => {
            let s = u64_to_string(n as u64);
            x.empty1(name, "w:val", s.as_str());
        },
        None => {},
    }
}

/// Append `k="v"` to an attribute list when `v` is set.
fn push_opt_attr<'a>(attrs: &mut Vec<(&'a str, &'a str)>, k: &'a str, v: &'a Option<String>)
    ensures
        attr_views(final(attrs)@) == attr_views(old(attrs)@) + opt_attr(k@, ov(*v)),
{
    match v {
        Some(s) => {
            attrs.push((k, s.as_str()));
            proof {
                assert(attr_views(final(attrs)@) =~= attr_views(old(attrs)@) + opt_attr(k@, ov(*v)));
            }
        },
        None => {
            proof {
                assert(attr_views(final(attrs)@) =~= attr_views(old(attrs)@) + opt_attr(k@, ov(*v)));
            }
        },
    }
}

/// Append `k="n"` to an attribute list when `v` is set; `text` holds the
/// decimal digits of `n`.
fn push_num_attr<'a>(
    attrs: &mut Vec<(&'a str, &'a str)>,
    k: &'a str,
    v: Option<u32>,
    text: &'a String,
)
    requires
        v is Some ==> text@ == dec(v->0 as nat),
    ensures
        attr_views(final(attrs)@) == attr_views(old(attrs)@) + opt_num_attr(k@, v),
{
    if v.is_some() {
        attrs.push((k, text.as_str()));
    }
    proof {
        assert(attr_views(final(attrs)@) =~= attr_views(old(attrs)@) + opt_num_attr(k@, v));
    }
}

/// The decimal digits of `v`, or nothing.
fn opt_dec(v: Option<u32>) -> (s: String)
    ensures
        v is Some ==> s@ == dec(v->0 as nat),
{
    match v {
        Some(n) => u64_to_string(n as u64),
        None => String::new(),
    }
}

fn fonts_into(x: &mut XmlBuf, f: &Fonts)
    ensures
        final(x)@ == old(x)@ + empty_tag("w:rFonts"@, fonts_attrs(f@)),
{
    let mut attrs: Vec<(&str, &str)> = Vec::new();
    proof {
        assert(attr_views(attrs@) =~= Seq::empty());
    }
    push_opt_attr(&mut attrs, "w:ascii", &f.ascii);
    push_opt_attr(&mut attrs, "w:hAnsi", &f.hi_ansi);
    push_opt_attr(&mut attrs, "w:asciiTheme", &f.ascii_theme);
    push_opt_attr(&mut attrs, "w:hAnsiTheme", &f.h_ansi_theme);
    push_opt_attr(&mut attrs, "w:eastAsiaTheme", &f.east_asia_theme);
    push_opt_attr(&mut attrs, "w:cstheme", &f.cs_theme);
    proof {
        assert(attr_views(attrs@) =~= fonts_attrs(f@));
    }
    x.empty("w:rFonts", attrs.as_slice());
}

/// `<a/><b/>` when `on` (a property and its complex-script twin).
fn pair_into(x: &mut XmlBuf, on: bool, a: &str, b: &str)
    ensures
        final(x)@ == old(x)@ + (if on {
            empty_tag(a@, no_attrs()) + empty_tag(b@, no_attrs())
        } else {
            Seq::empty()
        }),
{
    if on {
        x.empty0(a);
        x.empty0(b);
    }
}

fn size_into(x: &mut XmlBuf, v: Option<u32>)
    ensures
        final(x)@ == old(x)@ + match v {
            Some(n) => empty_tag("w:sz"@, attr1("w:val"@, dec(n as nat))) + empty_tag(
                "w:szCs"@,
                attr1("w:val"@, dec(n as nat)),
            ),
            None => Seq::empty(),
        },
{
    match v {
        Some(sz) => {
            let s = u64_to_string(sz as u64);
            x.empty1("w:sz", "w:val", s.as_str());
            x.empty1("w:szCs", "w:val", s.as_str());
        },
        None => {},
    }
}

fn render_r_pr(x: &mut XmlBuf, r: &RPr)
    ensures
        final(x)@ == old(x)@ + rpr_xml(r@),
{
    let ghost s0 = x@;
    x.open0("w:rPr");
    let ghost s1 = x@;
    match &r.fonts {
        Some(f) => fonts_into(x, f),
        None => {},
    }
    pair_into(x, r.bold, "w:b", "w:bCs");
    pair_into(x, r.italic, "w:i", "w:iCs");
    flag_into(x, r.strike, "w:strike");
    opt_val_into(x, "w:color", &r.color);
    size_into(x, r.size_hp);
    opt_val_into(x, "w:u", &r.underline);
    opt_val_into(x, "w:vertAlign", &r.vert_align);
    proof {
        assert(x@ =~= s1 + rpr_children(r@));
    }
    x.close("w:rPr");
}

fn spacing_into(x: &mut XmlBuf, s: Spacing)
    ensures
        final(x)@ == old(x)@ + empty_tag("w:spacing"@, spacing_attrs(s)),
{
    let b = opt_dec(s.before);
    let a = opt_dec(s.after);
    let l = opt_dec(s.line);
    let mut attrs: Vec<(&str, &str)> = Vec::new();
    proof {
        assert(attr_views(attrs@) =~= Seq::empty());
    }
    push_num_attr(&mut attrs, "w:before", s.before, &b);
    push_num_attr(&mut attrs, "w:after", s.after, &a);
    let ghost mid = attrs@;
    if s.line.is_some() {
        attrs.push(("w:line", l.as_str()));
        attrs.push(("w:lineRule", "auto"));
    }
    proof {
        assert(attr_views(attrs@) =~= spacing_attrs(s));
    }
    x.empty("w:spacing", attrs.as_slice());
}

fn indent_into(x: &mut XmlBuf, i: Indent)
    ensures
        final(x)@ == old(x)@ + empty_tag("w:ind"@, indent_attrs(i)),
{
    let l = opt_dec(i.left);
    let h = opt_dec(i.hanging);
    let f = opt_dec(i.first_line);
    let mut attrs: Vec<(&str, &str)> = Vec::new();
    proof {
        assert(attr_views(attrs@) =~= Seq::empty());
    }
    push_num_attr(&mut attrs, "w:left", i.left, &l);
    push_num_attr(&mut attrs, "w:hanging", i.hanging, &h);
    push_num_attr(&mut attrs, "w:firstLine", i.first_line, &f);
    proof {
        assert(attr_views(attrs@) =~= indent_attrs(i));
    }
    x.empty("w:ind", attrs.as_slice());
}

fn border_top_into(x: &mut XmlBuf)
    ensures
        final(x)@ == old(x)@ + border_top_xml(),
{
    x.open0("w:pBdr");
    let a: &[(&str, &str)] = &[
        ("w:val", "single"),
        ("w:sz", "4"),
        ("w:space", "1"),
        ("w:color", "auto"),
    ];
    proof {
        assert(attr_views(a@) =~= seq![
            ("w:val"@, "single"@),
            ("w:sz"@, "4"@),
            ("w:space"@, "1"@),
            ("w:color"@, "auto"@),
        ]);
    }
    x.empty("w:top", a);
    x.close("w:pBdr");
}

fn render_p_pr(x: &mut XmlBuf, p: &PPr)
    ensures
        final(x)@ == old(x)@ + ppr_xml(p@),
{
    x.open0("w:pPr");
    let ghost s1 = x@;
    flag_into(x, p.keep_next, "w:keepNext");
    flag_into(x, p.keep_lines, "w:keepLines");
    if p.border_top {
        border_top_into(x);
    }
    match p.spacing {
        Some(s) => spacing_into(x, s),
        None => {},
    }
    match p.ind {
        Some(i) => indent_into(x, i),
        None => {},
    }
    flag_into(x, p.contextual_spacing, "w:contextualSpacing");
    opt_val_into(x, "w:jc", &p.jc);
    num_val_into(x, "w:outlineLvl", p.outline_lvl);
    proof {
        assert(x@ =~= s1 + ppr_children(p@));
    }
    x.close("w:pPr");
}

// ------------------------------------------------------------------
// Styles
// ------------------------------------------------------------------

/// One style entry. Construct with [`Style::paragraph`] /
/// [`Style::character`] etc., chain setters, then call `render` to
/// append to an `XmlBuf`.
pub struct Style {
    pub kind: StyleType,
    pub id: String,
    pub name: String,
    pub default: bool,
    pub custom: bool,
    pub based_on: Option<String>,
    pub next: Option<String>,
    pub link: Option<String>,
    pub ui_priority: Option<u32>,
    pub semi_hidden: bool,
    pub unhide_when_used: bool,
    pub q_format: bool,
    pub p_pr: Option<PPr>,
    pub r_pr: Option<RPr>,
}

pub struct StyleView {
    pub kind: StyleType,
    pub id: Seq<char>,
    pub name: Seq<char>,
    pub default: bool,
    pub custom: bool,
    pub based_on: Option<Seq<char>>,
    pub next: Option<Seq<char>>,
    pub link: Option<Seq<char>>,
    pub ui_priority: Option<u32>,
    pub semi_hidden: bool,
    pub unhide_when_used: bool,
    pub q_format: bool,
    pub p_pr: Option<PPrView>,
    pub r_pr: Option<RPrView>,
}

impl View for Style {
    type V = StyleView;

    open spec fn view(&self) -> StyleView {
        StyleView {
            kind: self.kind,
            id: self.id@,
            name: self.name@,
            default: self.default,
            custom: self.custom,
            based_on: ov(self.based_on),
            next: ov(self.next),
            link: ov(self.link),
            ui_priority: self.ui_priority,
            semi_hidden: self.semi_hidden,
            unhide_when_used: self.unhide_when_used,
            q_format: self.q_format,
            p_pr: match self.p_pr {
                Some(p) => Some(p@),
                None => None,
            },
            r_pr: match self.r_pr {
                Some(r) => Some(r@),
                None => None,
            },
        }
    }
}

/// A fresh style: only kind, id and name set.
pub open spec fn new_style(kind: StyleType, id: Seq<char>, name: Seq<char>) -> StyleView {
    StyleView {
        kind,
        id,
        name,
        default: false,
        custom: false,
        based_on: None,
        next: None,
        link: None,
        ui_priority: None,
        semi_hidden: false,
        unhide_when_used: false,
        q_format: false,
        p_pr: None,
        r_pr: None,
    }
}

/// The attributes of `<w:style>`.
pub open spec fn style_attrs(s: StyleView) -> Seq<(Seq<char>, Seq<char>)> {
    seq![("w:type"@, style_type_name(s.kind))] + (if s.default {
        seq![("w:default"@, "1"@)]
    } else {
        Seq::empty()
    }) + (if s.custom {
        seq![("w:customStyle"@, "1"@)]
    } else {
        Seq::empty()
    }) + seq![("w:styleId"@, s.id)]
}

/// The children of `<w:style>`, in schema order.
pub open spec fn style_children(s: StyleView) -> Seq<char> {
    empty_tag("w:name"@, attr1("w:val"@, s.name)) + opt_val_xml("w:basedOn"@, s.based_on)
        + opt_val_xml("w:next"@, s.next) + opt_val_xml("w:link"@, s.link) + opt_num_val_xml(
        "w:uiPriority"@,
        s.ui_priority,
    ) + flag_xml(s.semi_hidden, "w:semiHidden"@) + flag_xml(
        s.unhide_when_used,
        "w:unhideWhenUsed"@,
    ) + flag_xml(s.q_format, "w:qFormat"@) + (match s.p_pr {
        Some(p) => ppr_xml(p),
        None => Seq::empty(),
    }) + (match s.r_pr {
        Some(r) => rpr_xml(r),
        None => Seq::empty(),
    })
}

/// A whole `<w:style>` element.
#[verifier::opaque]
pub open spec fn style_xml(s: StyleView) -> Seq<char> {
    element("w:style"@, style_attrs(s), style_children(s))
}

impl Style {
    fn new(kind: StyleType, id: &str, name: &str) -> (s: Self)
        ensures
            s@ == new_style(kind, id@, name@),
    {
        Self {
            kind,
            id: to_owned_string(id),
            name: to_owned_string(name),
            default: false,
            custom: false,
            based_on: None,
            next: None,
            link: None,
            ui_priority: None,
            semi_hidden: false,
            unhide_when_used: false,
            q_format: false,
            p_pr: None,
            r_pr: None,
        }
    }

    pub fn paragraph(id: &str, name: &str) -> (s: Self)
        ensures
            s@ == new_style(StyleType::Paragraph, id@, name@),
    {
        Self::new(StyleType::Paragraph, id, name)
    }

    pub fn character(id: &str, name: &str) -> (s: Self)
        ensures
            s@ == new_style(StyleType::Character, id@, name@),
    {
        Self::new(StyleType::Character, id, name)
    }

    pub fn table(id: &str, name: &str) -> (s: Self)
        ensures
            s@ == new_style(StyleType::Table, id@, name@),
    {
        Self::new(StyleType::Table, id, name)
    }

    pub fn numbering(id: &str, name: &str) -> (s: Self)
        ensures
            s@ == new_style(StyleType::Numbering, id@, name@),
    {
        Self::new(StyleType::Numbering, id, name)
    }

    pub fn default(self) -> (s: Self)
        ensures
            s@ == (StyleView { default: true, ..self@ }),
    {
        let mut s = self;
        s.default = true;
        s
    }

    pub fn custom(self) -> (s: Self)
        ensures
            s@ == (StyleView { custom: true, ..self@ }),
    {
        let mut s = self;
        s.custom = true;
        s
    }

    pub fn based_on(self, id: &str) -> (s: Self)
        ensures
            s@ == (StyleView { based_on: Some(id@), ..self@ }),
    {
        let mut s = self;
        s.based_on = Some(to_owned_string(id));
        s
    }

    pub fn next(self, id: &str) -> (s: Self)
        ensures
            s@ == (StyleView { next: Some(id@), ..self@ }),
    {
        let mut s = self;
        s.next = Some(to_owned_string(id));
        s
    }

    pub fn link(self, id: &str) -> (s: Self)
        ensures
            s@ == (StyleView { link: Some(id@), ..self@ }),
    {
        let mut s = self;
        s.link = Some(to_owned_string(id));
        s
    }

    pub fn ui_priority(self, p: u32) -> (s: Self)
        ensures
            s@ == (StyleView { ui_priority: Some(p), ..self@ }),
    {
        let mut s = self;
        s.ui_priority = Some(p);
        s
    }

    pub fn semi_hidden(self) -> (s: Self)
        ensures
            s@ == (StyleView { semi_hidden: true, ..self@ }),
    {
        let mut s = self;
        s.semi_hidden = true;
        s
    }

    pub fn unhide_when_used(self) -> (s: Self)
        ensures
            s@ == (StyleView { unhide_when_used: true, ..self@ }),
    {
        let mut s = self;
        s.unhide_when_used = true;
        s
    }

    pub fn q_format(self) -> (s: Self)
        ensures
            s@ == (StyleView { q_format: true, ..self@ }),
    {
        let mut s = self;
        s.q_format = true;
        s
    }

    pub fn p_pr(self, p: PPr) -> (s: Self)
        ensures
            s@ == (StyleView { p_pr: Some(p@), ..self@ }),
    {
        let mut s = self;
        s.p_pr = Some(p);
        s
    }

    pub fn r_pr(self, r: RPr) -> (s: Self)
        ensures
            s@ == (StyleView { r_pr: Some(r@), ..self@ }),
    {
        let mut s = self;
        s.r_pr = Some(r);
        s
    }

    pub fn render(&self, x: &mut XmlBuf)
        ensures
            final(x)@ == old(x)@ + style_xml(self@),
    {
        let mut attrs: Vec<(&str, &str)> = Vec::new();
        attrs.push(("w:type", self.kind.attr()));
        if self.default {
            attrs.push(("w:default", "1"));
        }
        if self.custom {
            attrs.push(("w:customStyle", "1"));
        }
        attrs.push(("w:styleId", self.id.as_str()));
        proof {
            assert(attr_views(attrs@) =~= style_attrs(self@));
        }
        x.open("w:style", attrs.as_slice());
        let ghost s1 = x@;
        // 1. name
        x.empty1("w:name", "w:val", self.name.as_str());
        // 2. basedOn, 3. next, 4. link
        opt_val_into(x, "w:basedOn", &self.based_on);
        opt_val_into(x, "w:next", &self.next);
        opt_val_into(x, "w:link", &self.link);
        // 5. uiPriority
        num_val_into(x, "w:uiPriority", self.ui_priority);
        // 6. semiHidden, 7. unhideWhenUsed, 8. qFormat
        flag_into(x, self.semi_hidden, "w:semiHidden");
        flag_into(x, self.unhide_when_used, "w:unhideWhenUsed");
        flag_into(x, self.q_format, "w:qFormat");
        // 9. pPr
        match &self.p_pr {
            Some(p) => render_p_pr(x, p),
            None => {},
        }
        // 10. rPr
        match &self.r_pr {
            Some(r) => render_r_pr(x, r),
            None => {},
        }
        proof {
            assert(x@ =~= s1 + style_children(self@));
            reveal(style_xml);
        }
        x.close("w:style");
    }
}

// ------------------------------------------------------------------
// Source-supplied overrides
// ------------------------------------------------------------------

/// The ids the overrides name, in order.
pub open spec fn override_ids(ovs: Seq<OverrideView>) -> Seq<Seq<char>> {
    ovs.map_values(|o: OverrideView| o.id)
}

/// The first override naming `id`, if any.
pub open spec fn find_override(ovs: Seq<OverrideView>, id: Seq<char>) -> Option<OverrideView> {
    match first_match(override_ids(ovs), id) {
        Some(i) => Some(ovs[i]),
        None => None,
    }
}

/// `o` if set, else `d`.
pub open spec fn pick<T>(o: Option<T>, d: T) -> T {
    match o {
        Some(v) => v,
        None => d,
    }
}

/// `o` if set, else the current optional value `d`.
pub open spec fn pick_opt<T>(o: Option<T>, d: Option<T>) -> Option<T> {
    if o is Some {
        o
    } else {
        d
    }
}

/// Paragraph properties after an override. Spacing is replaced only
/// when the override sets one of its three values, and then keeps the
/// values it does not set.
pub open spec fn patched_ppr(p: PPrView, o: OverrideView) -> PPrView {
    let sp = pick(p.spacing, no_spacing());
    let touched = o.before_dxa is Some || o.after_dxa is Some || o.line_dxa is Some;
    PPrView {
        keep_next: pick(o.keep_next, p.keep_next),
        keep_lines: pick(o.keep_lines, p.keep_lines),
        spacing: if touched {
            Some(
                Spacing {
                    before: pick_opt(o.before_dxa, sp.before),
                    after: pick_opt(o.after_dxa, sp.after),
                    line: pick_opt(o.line_dxa, sp.line),
                },
            )
        } else {
            p.spacing
        },
        ind: p.ind,
        jc: pick_opt(o.align, p.jc),
        outline_lvl: pick_opt(o.outline_lvl, p.outline_lvl),
        contextual_spacing: pick(o.contextual_spacing, p.contextual_spacing),
        border_top: pick(o.border_top, p.border_top),
    }
}

/// The spacing value `before` of optional spacing, unset when there is none.
pub open spec fn spacing_before(s: Option<Spacing>) -> Option<u32> {
    match s {
        Some(v) => v.before,
        None => None,
    }
}

/// The spacing value `after` of optional spacing, unset when there is none.
pub open spec fn spacing_after(s: Option<Spacing>) -> Option<u32> {
    match s {
        Some(v) => v.after,
        None => None,
    }
}

/// The spacing value `line` of optional spacing, unset when there is none.
pub open spec fn spacing_line(s: Option<Spacing>) -> Option<u32> {
    match s {
        Some(v) => v.line,
        None => None,
    }
}

/// An override changes only the spacing values it sets: each of
/// before/after/line that it sets takes its value, each that it leaves
/// unset keeps the style's own value, and an override that sets none of
/// them leaves the spacing as it was. Indentation is never touched.
pub proof fn lemma_override_spacing_keeps_unset(p: PPrView, o: OverrideView)
    ensures
        o.before_dxa is Some ==> spacing_before(patched_ppr(p, o).spacing) == o.before_dxa,
        o.after_dxa is Some ==> spacing_after(patched_ppr(p, o).spacing) == o.after_dxa,
        o.line_dxa is Some ==> spacing_line(patched_ppr(p, o).spacing) == o.line_dxa,
        o.before_dxa is None ==> spacing_before(patched_ppr(p, o).spacing) == spacing_before(
            p.spacing,
        ),
        o.after_dxa is None ==> spacing_after(patched_ppr(p, o).spacing) == spacing_after(
            p.spacing,
        ),
        o.line_dxa is None ==> spacing_line(patched_ppr(p, o).spacing) == spacing_line(p.spacing),
        (o.before_dxa is None && o.after_dxa is None && o.line_dxa is None) ==> patched_ppr(
            p,
            o,
        ).spacing == p.spacing,
        patched_ppr(p, o).ind == p.ind,
{
}

/// Every other paragraph and run property an override names takes the
/// override's value, and each it leaves unset keeps the style's own; a
/// `font` sets the literal family for ascii and hAnsi, and the vertical
/// alignment is never touched.
pub proof fn lemma_override_sets_only_what_it_names(p: PPrView, r: RPrView, o: OverrideView)
    ensures
        o.keep_next matches Some(v) ==> patched_ppr(p, o).keep_next == v,
        o.keep_next is None ==> patched_ppr(p, o).keep_next == p.keep_next,
        o.keep_lines matches Some(v) ==> patched_ppr(p, o).keep_lines == v,
        o.keep_lines is None ==> patched_ppr(p, o).keep_lines == p.keep_lines,
        o.align is Some ==> patched_ppr(p, o).jc == o.align,
        o.align is None ==> patched_ppr(p, o).jc == p.jc,
        o.outline_lvl is Some ==> patched_ppr(p, o).outline_lvl == o.outline_lvl,
        o.outline_lvl is None ==> patched_ppr(p, o).outline_lvl == p.outline_lvl,
        o.contextual_spacing matches Some(v) ==> patched_ppr(p, o).contextual_spacing == v,
        o.contextual_spacing is None ==> patched_ppr(p, o).contextual_spacing
            == p.contextual_spacing,
        o.border_top matches Some(v) ==> patched_ppr(p, o).border_top == v,
        o.border_top is None ==> patched_ppr(p, o).border_top == p.border_top,
        o.bold matches Some(v) ==> patched_rpr(r, o).bold == v,
        o.bold is None ==> patched_rpr(r, o).bold == r.bold,
        o.italic matches Some(v) ==> patched_rpr(r, o).italic == v,
        o.italic is None ==> patched_rpr(r, o).italic == r.italic,
        o.strike matches Some(v) ==> patched_rpr(r, o).strike == v,
        o.strike is None ==> patched_rpr(r, o).strike == r.strike,
        o.color is Some ==> patched_rpr(r, o).color == o.color,
        o.color is None ==> patched_rpr(r, o).color == r.color,
        o.size_hp is Some ==> patched_rpr(r, o).size_hp == o.size_hp,
        o.size_hp is None ==> patched_rpr(r, o).size_hp == r.size_hp,
        o.underline is Some ==> patched_rpr(r, o).underline == o.underline,
        o.underline is None ==> patched_rpr(r, o).underline == r.underline,
        o.font matches Some(f) ==> (patched_rpr(r, o).fonts matches Some(fv) && fv.ascii == Some(f)
            && fv.hi_ansi == Some(f)),
        o.font is None ==> patched_rpr(r, o).fonts == r.fonts,
        patched_rpr(r, o).vert_align == r.vert_align,
{
}

/// Run properties after an override. A `font` replaces the whole font
/// record by the literal family for ascii and hAnsi, dropping theme
/// aliases.
pub open spec fn patched_rpr(r: RPrView, o: OverrideView) -> RPrView {
    RPrView {
        fonts: match o.font {
            Some(f) => Some(FontsView { ascii: Some(f), hi_ansi: Some(f), ..no_fonts() }),
            None => r.fonts,
        },
        bold: pick(o.bold, r.bold),
        italic: pick(o.italic, r.italic),
        strike: pick(o.strike, r.strike),
        color: pick_opt(o.color, r.color),
        size_hp: pick_opt(o.size_hp, r.size_hp),
        underline: pick_opt(o.underline, r.underline),
        vert_align: r.vert_align,
    }
}

/// A style after the first override naming its id. A matched style
/// always carries both a `pPr` and an `rPr` afterwards.
pub open spec fn overridden(s: StyleView, ovs: Seq<OverrideView>) -> StyleView {
    match find_override(ovs, s.id) {
        Some(o) => StyleView {
            p_pr: Some(patched_ppr(pick(s.p_pr, no_ppr()), o)),
            r_pr: Some(patched_rpr(pick(s.r_pr, no_rpr()), o)),
            ..s
        },
        None => s,
    }
}

/// The first override whose id is `id`.
fn find_override_exec<'a>(overrides: &'a [StyleOverride], id: &str) -> (r: Option<
    &'a StyleOverride,
>)
    ensures
        match r {
            Some(o) => find_override(override_views(overrides@), id@) == Some(o@),
            None => find_override(override_views(overrides@), id@) is None,
        },
{
    let ghost keys = override_ids(override_views(overrides@));
    let mut i: usize = 0;
    while i < overrides.len()
        invariant
            i <= overrides@.len(),
            keys == override_ids(override_views(overrides@)),
            keys.len() == overrides@.len(),
            forall|j: int| 0 <= j < i ==> keys[j] != id@,
        decreases overrides@.len() - i,
    {
        let o = &overrides[i];
        if str_eq(o.id.as_str(), id) {
            proof {
                assert(keys[i as int] == o.id@);
                lemma_first_match_is(keys, id@, i as int);
            }
            return Some(o);
        }
        proof {
            assert(keys[i as int] == o.id@);
        }
        i = i + 1;
    }
    proof {
        lemma_first_match(keys, id@);
    }
    None
}

fn patch_ppr(p: PPr, o: &StyleOverride) -> (r: PPr)
    ensures
        r@ == patched_ppr(p@, o@),
{
    let mut p = p;
    let mut spacing = match p.spacing {
        Some(s) => s,
        None => Spacing::default(),
    };
    let mut touched = false;
    if let Some(v) = o.before_dxa {
        spacing.before = Some(v);
        touched = true;
    }
    if let Some(v) = o.after_dxa {
        spacing.after = Some(v);
        touched = true;
    }
    if let Some(v) = o.line_dxa {
        spacing.line = Some(v);
        touched = true;
    }
    if touched {
        p.spacing = Some(spacing);
    }
    if let Some(v) = &o.align {
        p.jc = Some(v.clone());
    }
    if let Some(v) = o.keep_next {
        p.keep_next = v;
    }
    if let Some(v) = o.keep_lines {
        p.keep_lines = v;
    }
    if let Some(v) = o.outline_lvl {
        p.outline_lvl = Some(v);
    }
    if let Some(v) = o.contextual_spacing {
        p.contextual_spacing = v;
    }
    if let Some(v) = o.border_top {
        p.border_top = v;
    }
    p
}

fn patch_rpr(r: RPr, o: &StyleOverride) -> (out: RPr)
    ensures
        out@ == patched_rpr(r@, o@),
{
    let mut r = r;
    if let Some(v) = o.size_hp {
        r.size_hp = Some(v);
    }
    if let Some(v) = &o.color {
        r.color = Some(v.clone());
    }
    if let Some(v) = o.bold {
        r.bold = v;
    }
    if let Some(v) = o.italic {
        r.italic = v;
    }
    if let Some(v) = o.strike {
        r.strike = v;
    }
    if let Some(v) = &o.underline {
        r.underline = Some(v.clone());
    }
    if let Some(v) = &o.font {
        // Setting `font:` clears any theme alias and forces ascii/hAnsi
        // to the literal family name — matches Word's behavior when
        // you change a style's font from a theme to a specific face.
        let mut f = Fonts::default();
        f.ascii = Some(v.clone());
        f.hi_ansi = Some(v.clone());
        r.fonts = Some(f);
    }
    r
}

/// Apply the first override whose id matches the style's id.
pub fn apply_overrides(style: Style, overrides: &[StyleOverride]) -> (r: Style)
    ensures
        r@ == overridden(style@, override_views(overrides@)),
{
    let mut s = style;
    match find_override_exec(overrides, s.id.as_str()) {
        None => s,
        Some(o) => {
            // Build pPr/rPr if missing so we can patch.
            let p = match s.p_pr.take() {
                Some(p) => p,
                None => PPr::default(),
            };
            let r = match s.r_pr.take() {
                Some(r) => r,
                None => RPr::default(),
            };
            s.p_pr = Some(patch_ppr(p, o));
            s.r_pr = Some(patch_rpr(r, o));
            s
        },
    }
}

impl Style {
    /// Render this style, applying any matching source-supplied
    /// override on top of the built-in defaults first.
    pub fn render_with(self, x: &mut XmlBuf, overrides: &[StyleOverride])
        ensures
            final(x)@ == old(x)@ + style_xml(overridden(self@, override_views(overrides@))),
    {
        apply_overrides(self, overrides).render(x);
    }
}

/// A style that no override names renders exactly as built in.
pub proof fn lemma_unnamed_style_unchanged(s: StyleView, ovs: Seq<OverrideView>)
    requires
        forall|i: int| 0 <= i < ovs.len() ==> ovs[i].id != s.id,
    ensures
        overridden(s, ovs) == s,
{
    lemma_first_match(override_ids(ovs), s.id);
    if first_match(override_ids(ovs), s.id) is Some {
        let i = first_match(override_ids(ovs), s.id)->0;
        assert(override_ids(ovs)[i] == ovs[i].id);
    }
}

/// Applying the same override twice changes nothing more than applying
/// it once.
pub proof fn lemma_override_idempotent(s: StyleView, ovs: Seq<OverrideView>)
    ensures
        overridden(overridden(s, ovs), ovs) == overridden(s, ovs),
{
}

// ------------------------------------------------------------------
// The built-in style set
// ------------------------------------------------------------------

/// `Normal`: Word's default paragraph style.
pub open spec fn normal_style() -> StyleView {
    StyleView {
        default: true,
        q_format: true,
        ..new_style(StyleType::Paragraph, "Normal"@, "Normal"@)
    }
}

/// The character, table and numbering defaults every docx needs.
pub open spec fn hidden_default(kind: StyleType, id: Seq<char>, name: Seq<char>, pri: u32) -> StyleView {
    StyleView {
        default: true,
        ui_priority: Some(pri),
        semi_hidden: true,
        unhide_when_used: true,
        ..new_style(kind, id, name)
    }
}

/// The theme fonts headings use.
pub open spec fn major_fonts() -> FontsView {
    FontsView {
        ascii_theme: Some("majorHAnsi"@),
        h_ansi_theme: Some("majorHAnsi"@),
        east_asia_theme: Some("majorEastAsia"@),
        cs_theme: Some("majorBidi"@),
        ..no_fonts()
    }
}

/// Heading sizes in half-points: 16pt, 13pt, 12pt, then 11pt.
pub open spec fn heading_size(level: nat) -> u32 {
    if level == 1 {
        32
    } else if level == 2 {
        26
    } else if level == 3 {
        24
    } else {
        22
    }
}

/// `Heading<level>`: accent-blue theme-font heading with its outline level.
pub open spec fn heading_style(level: nat) -> StyleView {
    StyleView {
        based_on: Some("Normal"@),
        next: Some("Normal"@),
        ui_priority: Some(9),
        q_format: true,
        p_pr: Some(
            PPrView {
                keep_next: true,
                keep_lines: true,
                spacing: Some(
                    Spacing {
                        before: Some(
                            if level == 1 {
                                240u32
                            } else {
                                40u32
                            },
                        ),
                        after: Some(0u32),
                        line: None,
                    },
                ),
                outline_lvl: Some((level - 1) as u32),
                ..no_ppr()
            },
        ),
        r_pr: Some(
            RPrView {
                fonts: Some(major_fonts()),
                color: Some("2E74B5"@),
                size_hp: Some(heading_size(level)),
                ..no_rpr()
            },
        ),
        ..new_style(StyleType::Paragraph, "Heading"@ + dec(level), "heading "@ + dec(level))
    }
}

/// `Title`: 18pt bold.
pub open spec fn title_style() -> StyleView {
    StyleView {
        based_on: Some("Normal"@),
        next: Some("Normal"@),
        ui_priority: Some(10),
        q_format: true,
        r_pr: Some(RPrView { bold: true, size_hp: Some(36u32), ..no_rpr() }),
        ..new_style(StyleType::Paragraph, "Title"@, "Title"@)
    }
}

/// `Caption`: centered, italic, 9pt, grey-blue.
pub open spec fn caption_style() -> StyleView {
    StyleView {
        based_on: Some("Normal"@),
        next: Some("Normal"@),
        ui_priority: Some(35),
        semi_hidden: true,
        unhide_when_used: true,
        q_format: true,
        p_pr: Some(PPrView { jc: Some("center"@), ..no_ppr() }),
        r_pr: Some(
            RPrView { italic: true, color: Some("44546A"@), size_hp: Some(18u32), ..no_rpr() },
        ),
        ..new_style(StyleType::Paragraph, "Caption"@, "caption"@)
    }
}

/// `Hyperlink`: blue, underlined character style.
pub open spec fn hyperlink_style() -> StyleView {
    StyleView {
        ui_priority: Some(99),
        r_pr: Some(
            RPrView { color: Some("0563C1"@), underline: Some("single"@), ..no_rpr() },
        ),
        ..new_style(StyleType::Character, "Hyperlink"@, "Hyperlink"@)
    }
}

/// `FootnoteReference`: superscript marker.
pub open spec fn footnote_reference_style() -> StyleView {
    StyleView {
        ui_priority: Some(99),
        semi_hidden: true,
        unhide_when_used: true,
        r_pr: Some(RPrView { vert_align: Some("superscript"@), ..no_rpr() }),
        ..new_style(StyleType::Character, "FootnoteReference"@, "footnote reference"@)
    }
}

/// `TOC<level>`: left indent widening by 220 per level.
pub open spec fn toc_style(level: nat) -> StyleView {
    StyleView {
        based_on: Some("Normal"@),
        next: Some("Normal"@),
        ui_priority: Some(39),
        semi_hidden: true,
        unhide_when_used: true,
        p_pr: Some(
            PPrView {
                spacing: Some(Spacing { before: Some(0u32), after: Some(100u32), line: None }),
                ind: Some(
                    Indent { left: Some((220 * (level - 1)) as u32), hanging: None, first_line: None },
                ),
                ..no_ppr()
            },
        ),
        ..new_style(StyleType::Paragraph, "TOC"@ + dec(level), "toc "@ + dec(level))
    }
}

/// `TOCHeading`: like Heading1, centered, without an outline level so
/// the TOC field does not list itself.
pub open spec fn toc_heading_style() -> StyleView {
    StyleView {
        based_on: Some("Heading1"@),
        next: Some("Normal"@),
        ui_priority: Some(39),
        unhide_when_used: true,
        q_format: true,
        p_pr: Some(
            PPrView {
                keep_next: true,
                keep_lines: true,
                spacing: Some(Spacing { before: Some(240u32), after: Some(0u32), line: None }),
                jc: Some("center"@),
                ..no_ppr()
            },
        ),
        r_pr: Some(
            RPrView {
                fonts: Some(major_fonts()),
                color: Some("2E74B5"@),
                size_hp: Some(32u32),
                ..no_rpr()
            },
        ),
        ..new_style(StyleType::Paragraph, "TOCHeading"@, "TOC Heading"@)
    }
}

/// `TableofFigures`: entries of the lists of tables and figures.
pub open spec fn table_of_figures_style() -> StyleView {
    StyleView {
        based_on: Some("Normal"@),
        next: Some("Normal"@),
        ui_priority: Some(99),
        semi_hidden: true,
        unhide_when_used: true,
        ..new_style(StyleType::Paragraph, "TableofFigures"@, "table of figures"@)
    }
}

/// `ListParagraph`: half-inch indent, contextual spacing.
pub open spec fn list_paragraph_style() -> StyleView {
    StyleView {
        based_on: Some("Normal"@),
        ui_priority: Some(34),
        q_format: true,
        p_pr: Some(
            PPrView {
                ind: Some(Indent { left: Some(720u32), hanging: None, first_line: None }),
                contextual_spacing: true,
                ..no_ppr()
            },
        ),
        ..new_style(StyleType::Paragraph, "ListParagraph"@, "List Paragraph"@)
    }
}

/// The four defaults, in order.
pub open spec fn default_styles() -> Seq<StyleView> {
    seq![
        normal_style(),
        hidden_default(StyleType::Character, "DefaultParagraphFont"@, "Default Paragraph Font"@, 1),
        hidden_default(StyleType::Table, "TableNormal"@, "Normal Table"@, 99),
        hidden_default(StyleType::Numbering, "NoList"@, "No List"@, 99),
    ]
}

/// Heading1 .. Heading<n>.
pub open spec fn heading_styles(n: nat) -> Seq<StyleView> {
    Seq::new(n, |i: int| heading_style((i + 1) as nat))
}

/// TOC1 .. TOC<n>.
pub open spec fn toc_styles(n: nat) -> Seq<StyleView> {
    Seq::new(n, |i: int| toc_style((i + 1) as nat))
}

/// Title, Caption, Hyperlink, FootnoteReference.
pub open spec fn middle_styles() -> Seq<StyleView> {
    seq![title_style(), caption_style(), hyperlink_style(), footnote_reference_style()]
}

/// TOCHeading, TableofFigures, ListParagraph.
pub open spec fn closing_styles() -> Seq<StyleView> {
    seq![toc_heading_style(), table_of_figures_style(), list_paragraph_style()]
}

/// Every built-in style, in the order the part lists them.
pub open spec fn builtin_styles() -> Seq<StyleView> {
    default_styles() + heading_styles(6) + middle_styles() + toc_styles(9) + closing_styles()
}

/// Each style of `ss`, overridden, rendered in order.
pub open spec fn render_all(ss: Seq<StyleView>, ovs: Seq<OverrideView>) -> Seq<char>
    decreases ss.len(),
{
    if ss.len() == 0 {
        Seq::empty()
    } else {
        render_all(ss.drop_last(), ovs) + style_xml(overridden(ss.last(), ovs))
    }
}

proof fn lemma_render_all_push(ss: Seq<StyleView>, v: StyleView, ovs: Seq<OverrideView>)
    ensures
        render_all(ss.push(v), ovs) == render_all(ss, ovs) + style_xml(overridden(v, ovs)),
{
    assert(ss.push(v).drop_last() =~= ss);
}

proof fn lemma_render_all_concat(a: Seq<StyleView>, b: Seq<StyleView>, ovs: Seq<OverrideView>)
    ensures
        render_all(a + b, ovs) == render_all(a, ovs) + render_all(b, ovs),
    decreases b.len(),
{
    if b.len() == 0 {
        assert(a + b =~= a);
    } else {
        lemma_render_all_concat(a, b.drop_last(), ovs);
        assert((a + b).drop_last() =~= a + b.drop_last());
        assert((a + b).last() == b.last());
    }
}

/// Render one style after its overrides, recording it in `done`.
fn emit_style(x: &mut XmlBuf, s: Style, overrides: &[StyleOverride], Ghost(start): Ghost<Seq<char>>, Ghost(done): Ghost<Seq<StyleView>>) -> (next: Ghost<Seq<StyleView>>)
    requires
        old(x)@ == start + render_all(done, override_views(overrides@)),
    ensures
        next@ == done.push(s@),
        final(x)@ == start + render_all(next@, override_views(overrides@)),
{
    proof {
        lemma_render_all_push(done, s@, override_views(overrides@));
    }
    let ghost v = s@;
    s.render_with(x, overrides);
    Ghost(done.push(v))
}

fn render_default_styles(x: &mut XmlBuf, overrides: &[StyleOverride])
    ensures
        final(x)@ == old(x)@ + render_all(default_styles(), override_views(overrides@)),
{
    let ghost start = x@;
    let ghost d0 = Seq::<StyleView>::empty();
    let d = emit_style(
        x,
        Style::paragraph("Normal", "Normal").default().q_format(),
        overrides,
        Ghost(start),
        Ghost(d0),
    );
    let d = emit_style(
        x,
        Style::character("DefaultParagraphFont", "Default Paragraph Font").default().ui_priority(
            1,
        ).semi_hidden().unhide_when_used(),
        overrides,
        Ghost(start),
        d,
    );
    let d = emit_style(
        x,
        Style::table("TableNormal", "Normal Table").default().ui_priority(
            99,
        ).semi_hidden().unhide_when_used(),
        overrides,
        Ghost(start),
        d,
    );
    let d = emit_style(
        x,
        Style::numbering("NoList", "No List").default().ui_priority(
            99,
        ).semi_hidden().unhide_when_used(),
        overrides,
        Ghost(start),
        d,
    );
    proof {
        assert(d@ =~= default_styles());
    }
}

fn heading_size_hp(level: u32) -> (sz: u32)
    ensures
        sz == heading_size(level as nat),
{
    if level == 1 {
        32
    } else if level == 2 {
        26
    } else if level == 3 {
        24
    } else {
        22
    }
}

fn major_fonts_exec() -> (f: Fonts)
    ensures
        f@ == major_fonts(),
{
    let mut f = Fonts::default();
    f.ascii_theme = Some(to_owned_string("majorHAnsi"));
    f.h_ansi_theme = Some(to_owned_string("majorHAnsi"));
    f.east_asia_theme = Some(to_owned_string("majorEastAsia"));
    f.cs_theme = Some(to_owned_string("majorBidi"));
    f
}

fn heading_style_exec(level: u32) -> (s: Style)
    requires
        1 <= level <= 6,
    ensures
        s@ == heading_style(level as nat),
{
    let id = prefixed_number("Heading", level as u64);
    let name = prefixed_number("heading ", level as u64);
    let mut p_pr = PPr::default();
    p_pr.keep_next = true;
    p_pr.keep_lines = true;
    p_pr.spacing = Some(
        Spacing {
            before: Some(
                if level == 1 {
                    240
                } else {
                    40
                },
            ),
            after: Some(0),
            line: None,
        },
    );
    p_pr.outline_lvl = Some(level - 1);
    let mut r_pr = RPr::default();
    r_pr.fonts = Some(major_fonts_exec());
    r_pr.color = Some(to_owned_string("2E74B5"));
    r_pr.size_hp = Some(heading_size_hp(level));
    Style::paragraph(id.as_str(), name.as_str()).based_on("Normal").next("Normal").ui_priority(
        9,
    ).q_format().p_pr(p_pr).r_pr(r_pr)
}

fn render_heading_styles(x: &mut XmlBuf, overrides: &[StyleOverride])
    ensures
        final(x)@ == old(x)@ + render_all(heading_styles(6), override_views(overrides@)),
{
    let ghost start = x@;
    let mut d: Ghost<Seq<StyleView>> = Ghost(Seq::empty());
    let mut level: u32 = 1;
    proof {
        assert(d@ =~= heading_styles(0));
    }
    while level <= 6
        invariant
            1 <= level <= 7,
            d@ == heading_styles((level - 1) as nat),
            x@ == start + render_all(d@, override_views(overrides@)),
        decreases 7 - level,
    {
        let ghost prev = d@;
        d = emit_style(x, heading_style_exec(level), overrides, Ghost(start), d);
        proof {
            assert(prev.push(heading_style(level as nat)) =~= heading_styles(level as nat));
        }
        level = level + 1;
    }
    proof {
        assert(render_all(Seq::<StyleView>::empty(), override_views(overrides@)) =~= Seq::empty());
    }
}

fn toc_style_exec(level: u32) -> (s: Style)
    requires
        1 <= level <= 9,
    ensures
        s@ == toc_style(level as nat),
{
    let id = prefixed_number("TOC", level as u64);
    let name = prefixed_number("toc ", level as u64);
    let mut p_pr = PPr::default();
    p_pr.spacing = Some(Spacing { before: Some(0), after: Some(100), line: None });
    p_pr.ind = Some(Indent { left: Some(220 * (level - 1)), hanging: None, first_line: None });
    Style::paragraph(id.as_str(), name.as_str()).based_on("Normal").next("Normal").ui_priority(
        39,
    ).semi_hidden().unhide_when_used().p_pr(p_pr)
}

fn render_toc_styles(x: &mut XmlBuf, overrides: &[StyleOverride])
    ensures
        final(x)@ == old(x)@ + render_all(toc_styles(9), override_views(overrides@)),
{
    let ghost start = x@;
    let mut d: Ghost<Seq<StyleView>> = Ghost(Seq::empty());
    let mut level: u32 = 1;
    proof {
        assert(d@ =~= toc_styles(0));
    }
    while level <= 9
        invariant
            1 <= level <= 10,
            d@ == toc_styles((level - 1) as nat),
            x@ == start + render_all(d@, override_views(overrides@)),
        decreases 10 - level,
    {
        let ghost prev = d@;
        d = emit_style(x, toc_style_exec(level), overrides, Ghost(start), d);
        proof {
            assert(prev.push(toc_style(level as nat)) =~= toc_styles(level as nat));
        }
        level = level + 1;
    }
    proof {
        assert(render_all(Seq::<StyleView>::empty(), override_views(overrides@)) =~= Seq::empty());
    }
}

fn render_middle_styles(x: &mut XmlBuf, overrides: &[StyleOverride])
    ensures
        final(x)@ == old(x)@ + render_all(middle_styles(), override_views(overrides@)),
{
    let ghost start = x@;
    let ghost d0 = Seq::<StyleView>::empty();
    // Title — cover page heading. 18pt bold, no theme color.
    let mut title_r = RPr::default();
    title_r.bold = true;
    title_r.size_hp = Some(36);
    let d = emit_style(
        x,
        Style::paragraph("Title", "Title").based_on("Normal").next("Normal").ui_priority(
            10,
        ).q_format().r_pr(title_r),
        overrides,
        Ghost(start),
        Ghost(d0),
    );
    // Caption — figure/table captions. Centered by default; authors
    // can override via `style[id:Caption, align:left|right|justify]`.
    let mut cap_p = PPr::default();
    cap_p.jc = Some(to_owned_string("center"));
    let mut cap_r = RPr::default();
    cap_r.italic = true;
    cap_r.color = Some(to_owned_string("44546A"));
    cap_r.size_hp = Some(18);
    let d = emit_style(
        x,
        Style::paragraph("Caption", "caption").based_on("Normal").next("Normal").ui_priority(
            35,
        ).semi_hidden().unhide_when_used().q_format().p_pr(cap_p).r_pr(cap_r),
        overrides,
        Ghost(start),
        d,
    );
    // Hyperlink — blue + underlined character style.
    let mut link_r = RPr::default();
    link_r.color = Some(to_owned_string("0563C1"));
    link_r.underline = Some(to_owned_string("single"));
    let d = emit_style(
        x,
        Style::character("Hyperlink", "Hyperlink").ui_priority(99).r_pr(link_r),
        overrides,
        Ghost(start),
        d,
    );
    // FootnoteReference — superscript marker character style.
    let mut note_r = RPr::default();
    note_r.vert_align = Some(to_owned_string("superscript"));
    let d = emit_style(
        x,
        Style::character("FootnoteReference", "footnote reference").ui_priority(
            99,
        ).semi_hidden().unhide_when_used().r_pr(note_r),
        overrides,
        Ghost(start),
        d,
    );
    proof {
        assert(d@ =~= middle_styles());
    }
}

fn render_closing_styles(x: &mut XmlBuf, overrides: &[StyleOverride])
    ensures
        final(x)@ == old(x)@ + render_all(closing_styles(), override_views(overrides@)),
{
    let ghost start = x@;
    let ghost d0 = Seq::<StyleView>::empty();
    // TOCHeading — the visible "Table of Contents" label above the TOC
    // field: like Heading1, centered, without outlineLvl.
    let mut th_p = PPr::default();
    th_p.keep_next = true;
    th_p.keep_lines = true;
    th_p.spacing = Some(Spacing { before: Some(240), after: Some(0), line: None });
    th_p.jc = Some(to_owned_string("center"));
    let mut th_r = RPr::default();
    th_r.fonts = Some(major_fonts_exec());
    th_r.color = Some(to_owned_string("2E74B5"));
    th_r.size_hp = Some(32);
    let d = emit_style(
        x,
        Style::paragraph("TOCHeading", "TOC Heading").based_on("Heading1").next(
            "Normal",
        ).ui_priority(39).unhide_when_used().q_format().p_pr(th_p).r_pr(th_r),
        overrides,
        Ghost(start),
        Ghost(d0),
    );
    // TableofFigures — caption-style entries in the LoT and LoF.
    let d = emit_style(
        x,
        Style::paragraph("TableofFigures", "table of figures").based_on("Normal").next(
            "Normal",
        ).ui_priority(99).semi_hidden().unhide_when_used(),
        overrides,
        Ghost(start),
        d,
    );
    // ListParagraph — contextualSpacing collapses the after-spacing
    // between sibling list items.
    let mut lp_p = PPr::default();
    lp_p.ind = Some(Indent { left: Some(720), hanging: None, first_line: None });
    lp_p.contextual_spacing = true;
    let d = emit_style(
        x,
        Style::paragraph("ListParagraph", "List Paragraph").based_on("Normal").ui_priority(
            34,
        ).q_format().p_pr(lp_p),
        overrides,
        Ghost(start),
        d,
    );
    proof {
        assert(d@ =~= closing_styles());
    }
}

/// Every built-in style, each after the first override naming it.
pub fn render_real_styles(x: &mut XmlBuf, overrides: &[StyleOverride])
    ensures
        final(x)@ == old(x)@ + render_all(builtin_styles(), override_views(overrides@)),
{
    let ghost ovs = override_views(overrides@);
    render_default_styles(x, overrides);
    render_heading_styles(x, overrides);
    render_middle_styles(x, overrides);
    render_toc_styles(x, overrides);
    render_closing_styles(x, overrides);
    proof {
        lemma_render_all_concat(default_styles(), heading_styles(6), ovs);
        lemma_render_all_concat(default_styles() + heading_styles(6), middle_styles(), ovs);
        lemma_render_all_concat(
            default_styles() + heading_styles(6) + middle_styles(),
            toc_styles(9),
            ovs,
        );
        lemma_render_all_concat(
            default_styles() + heading_styles(6) + middle_styles() + toc_styles(9),
            closing_styles(),
            ovs,
        );
    }
}

// ------------------------------------------------------------------
// The whole part
// ------------------------------------------------------------------

/// `docDefaults`: Calibri (minor theme) 11pt; 8pt after, 1.08× line.
pub open spec fn doc_defaults_xml() -> Seq<char> {
    element(
        "w:docDefaults"@,
        no_attrs(),
        element(
            "w:rPrDefault"@,
            no_attrs(),
            element(
                "w:rPr"@,
                no_attrs(),
                empty_tag(
                    "w:rFonts"@,
                    seq![
                        ("w:asciiTheme"@, "minorHAnsi"@),
                        ("w:eastAsiaTheme"@, "minorHAnsi"@),
                        ("w:hAnsiTheme"@, "minorHAnsi"@),
                        ("w:cstheme"@, "minorBidi"@),
                    ],
                ) + empty_tag("w:sz"@, attr1("w:val"@, "22"@)) + empty_tag(
                    "w:szCs"@,
                    attr1("w:val"@, "22"@),
                ),
            ),
        ) + element(
            "w:pPrDefault"@,
            no_attrs(),
            element(
                "w:pPr"@,
                no_attrs(),
                empty_tag(
                    "w:spacing"@,
                    seq![("w:after"@, "160"@), ("w:line"@, "259"@), ("w:lineRule"@, "auto"@)],
                ),
            ),
        ),
    )
}

/// A latent-style exception turning `qFormat` on.
pub open spec fn lsd_qformat(name: Seq<char>, pri: Option<u32>) -> Seq<char> {
    empty_tag(
        "w:lsdException"@,
        seq![("w:name"@, name)] + opt_num_attr("w:uiPriority"@, pri) + seq![("w:qFormat"@, "1"@)],
    )
}

/// A latent-style exception setting only the UI priority.
pub open spec fn lsd_uipri(name: Seq<char>, pri: u32) -> Seq<char> {
    empty_tag("w:lsdException"@, seq![("w:name"@, name), ("w:uiPriority"@, dec(pri as nat))])
}

/// The exceptions for `heading 1` .. `heading n`.
pub open spec fn latent_headings(n: nat) -> Seq<char>
    decreases n,
{
    if n == 0 {
        Seq::empty()
    } else {
        latent_headings((n - 1) as nat) + lsd_qformat("heading "@ + dec(n), Some(9u32))
    }
}

/// The exceptions for `toc 1` .. `toc n`.
pub open spec fn latent_tocs(n: nat) -> Seq<char>
    decreases n,
{
    if n == 0 {
        Seq::empty()
    } else {
        latent_tocs((n - 1) as nat) + lsd_uipri("toc "@ + dec(n), 39)
    }
}

/// `latentStyles`: only the exceptions Word's heading list and TOC field
/// rely on.
pub open spec fn latent_xml() -> Seq<char> {
    element(
        "w:latentStyles"@,
        seq![
            ("w:defLockedState"@, "0"@),
            ("w:defUIPriority"@, "99"@),
            ("w:defSemiHidden"@, "0"@),
            ("w:defUnhideWhenUsed"@, "0"@),
            ("w:defQFormat"@, "0"@),
            ("w:count"@, "375"@),
        ],
        lsd_qformat("Normal"@, Some(0u32)) + latent_headings(6) + latent_named() + latent_tocs(9),
    )
}

/// The whole `styles.xml` part with the given overrides applied.
pub open spec fn styles_xml(ovs: Seq<OverrideView>) -> Seq<char> {
    xml_declaration() + element(
        "w:styles"@,
        attr1("xmlns:w"@, ns_w()),
        doc_defaults_xml() + latent_xml() + render_all(builtin_styles(), ovs),
    )
}

proof fn lemma_render_all_unnamed(ss: Seq<StyleView>, ovs: Seq<OverrideView>)
    requires
        forall|i: int, j: int| 0 <= i < ovs.len() && 0 <= j < ss.len() ==> #[trigger] ovs[i].id != #[trigger] ss[j].id,
    ensures
        render_all(ss, ovs) == render_all(ss, Seq::empty()),
    decreases ss.len(),
{
    if ss.len() > 0 {
        let v = ss.last();
        assert forall|i: int, j: int| 0 <= i < ovs.len() && 0 <= j < ss.drop_last().len() implies #[trigger] ovs[i].id
            != #[trigger] ss.drop_last()[j].id by {
            assert(ss.drop_last()[j] == ss[j]);
        }
        lemma_render_all_unnamed(ss.drop_last(), ovs);
        assert forall|i: int| 0 <= i < ovs.len() implies ovs[i].id != v.id by {
            assert(ss[ss.len() - 1] == v);
        }
        lemma_unnamed_style_unchanged(v, ovs);
        lemma_unnamed_style_unchanged(v, Seq::empty());
    }
}

/// Overrides that name no built-in style leave the styles part exactly
/// as it is without overrides.
pub proof fn lemma_unnamed_overrides_change_nothing(ovs: Seq<OverrideView>)
    requires
        forall|i: int, j: int|
            0 <= i < ovs.len() && 0 <= j < builtin_styles().len() ==> #[trigger] ovs[i].id != #[trigger] builtin_styles()[j].id,
    ensures
        styles_xml(ovs) == styles_xml(Seq::empty()),
{
    lemma_render_all_unnamed(builtin_styles(), ovs);
}

proof fn lemma_find_override_later(ovs: Seq<OverrideView>, o: OverrideView, id: Seq<char>)
    requires
        exists|j: int| 0 <= j < ovs.len() && #[trigger] ovs[j].id == o.id,
    ensures
        find_override(ovs.push(o), id) == find_override(ovs, id),
{
    let keys = override_ids(ovs);
    let keys2 = override_ids(ovs.push(o));
    assert(keys2 =~= keys.push(o.id));
    lemma_first_match(keys, id);
    lemma_first_match(keys2, id);
    match first_match(keys, id) {
        Some(i) => {
            assert forall|j: int| 0 <= j < i implies keys2[j] != id by {
                assert(keys2[j] == keys[j]);
            }
            assert(keys2[i] == keys[i]);
            lemma_first_match_is(keys2, id, i);
            assert(ovs.push(o)[i] == ovs[i]);
        },
        None => {
            let j = choose|j: int| 0 <= j < ovs.len() && #[trigger] ovs[j].id == o.id;
            assert(keys[j] == ovs[j].id);
            match first_match(keys2, id) {
                Some(k) => {
                    if k < keys.len() {
                        assert(keys2[k] == keys[k]);
                    }
                },
                None => {},
            }
        },
    }
}

proof fn lemma_render_all_later(ss: Seq<StyleView>, ovs: Seq<OverrideView>, o: OverrideView)
    requires
        exists|j: int| 0 <= j < ovs.len() && #[trigger] ovs[j].id == o.id,
    ensures
        render_all(ss, ovs.push(o)) == render_all(ss, ovs),
    decreases ss.len(),
{
    if ss.len() > 0 {
        lemma_render_all_later(ss.drop_last(), ovs, o);
        lemma_find_override_later(ovs, o, ss.last().id);
    }
}

/// Only the first override naming a style takes effect: a later one
/// with an id an earlier override already has changes nothing.
pub proof fn lemma_later_duplicate_override_ignored(ovs: Seq<OverrideView>, o: OverrideView)
    requires
        exists|j: int| 0 <= j < ovs.len() && #[trigger] ovs[j].id == o.id,
    ensures
        styles_xml(ovs.push(o)) == styles_xml(ovs),
{
    lemma_render_all_later(builtin_styles(), ovs, o);
}

proof fn lemma_find_override_remove(ovs: Seq<OverrideView>, j: int, k: int, id: Seq<char>)
    requires
        0 <= j < k < ovs.len(),
        ovs[j].id == ovs[k].id,
    ensures
        find_override(ovs.remove(k), id) == find_override(ovs, id),
{
    let keys = override_ids(ovs);
    let rest = ovs.remove(k);
    let keys2 = override_ids(rest);
    assert(keys2 =~= keys.remove(k));
    lemma_first_match(keys, id);
    lemma_first_match(keys2, id);
    assert(keys[j] == ovs[j].id && keys[k] == ovs[k].id);
    match first_match(keys, id) {
        Some(i) => {
            if i < k {
                assert forall|m: int| 0 <= m < i implies keys2[m] != id by {
                    assert(keys2[m] == keys[m]);
                }
                assert(keys2[i] == keys[i]);
                lemma_first_match_is(keys2, id, i);
                assert(rest[i] == ovs[i]);
            } else if i == k {
                assert(keys[j] == id);
            } else {
                assert forall|m: int| 0 <= m < i - 1 implies keys2[m] != id by {
                    if m < k {
                        assert(keys2[m] == keys[m]);
                    } else {
                        assert(keys2[m] == keys[m + 1]);
                    }
                }
                assert(keys2[i - 1] == keys[i]);
                lemma_first_match_is(keys2, id, i - 1);
                assert(rest[i - 1] == ovs[i]);
            }
        },
        None => {
            match first_match(keys2, id) {
                Some(m) => {
                    if m < k {
                        assert(keys2[m] == keys[m]);
                    } else {
                        assert(keys2[m] == keys[m + 1]);
                    }
                },
                None => {},
            }
        },
    }
}

proof fn lemma_render_all_remove(ss: Seq<StyleView>, ovs: Seq<OverrideView>, j: int, k: int)
    requires
        0 <= j < k < ovs.len(),
        ovs[j].id == ovs[k].id,
    ensures
        render_all(ss, ovs.remove(k)) == render_all(ss, ovs),
    decreases ss.len(),
{
    if ss.len() > 0 {
        lemma_render_all_remove(ss.drop_last(), ovs, j, k);
        lemma_find_override_remove(ovs, j, k, ss.last().id);
    }
}

/// Only the first override naming a style takes effect: an override
/// anywhere after another with the same id can be dropped without
/// changing the styles part.
pub proof fn lemma_shadowed_override_ignored(ovs: Seq<OverrideView>, j: int, k: int)
    requires
        0 <= j < k < ovs.len(),
        ovs[j].id == ovs[k].id,
    ensures
        styles_xml(ovs.remove(k)) == styles_xml(ovs),
{
    lemma_render_all_remove(builtin_styles(), ovs, j, k);
}

#[verifier::rlimit(30)]
#[verifier::spinoff_prover]
fn doc_defaults_into(x: &mut XmlBuf)
    ensures
        final(x)@ == old(x)@ + doc_defaults_xml(),
{
    x.open0("w:docDefaults");
    x.open0("w:rPrDefault");
    x.open0("w:rPr");
    let fonts: &[(&str, &str)] = &[
        ("w:asciiTheme", "minorHAnsi"),
        ("w:eastAsiaTheme", "minorHAnsi"),
        ("w:hAnsiTheme", "minorHAnsi"),
        ("w:cstheme", "minorBidi"),
    ];
    proof {
        assert(attr_views(fonts@) =~= seq![
            ("w:asciiTheme"@, "minorHAnsi"@),
            ("w:eastAsiaTheme"@, "minorHAnsi"@),
            ("w:hAnsiTheme"@, "minorHAnsi"@),
            ("w:cstheme"@, "minorBidi"@),
        ]);
    }
    x.empty("w:rFonts", fonts);
    x.empty1("w:sz", "w:val", "22");
    x.empty1("w:szCs", "w:val", "22");
    x.close("w:rPr");
    x.close("w:rPrDefault");
    x.open0("w:pPrDefault");
    x.open0("w:pPr");
    let spacing: &[(&str, &str)] = &[("w:after", "160"), ("w:line", "259"), ("w:lineRule", "auto")];
    proof {
        assert(attr_views(spacing@) =~= seq![
            ("w:after"@, "160"@),
            ("w:line"@, "259"@),
            ("w:lineRule"@, "auto"@),
        ]);
    }
    x.empty("w:spacing", spacing);
    x.close("w:pPr");
    x.close("w:pPrDefault");
    x.close("w:docDefaults");
}

fn latent_qformat(x: &mut XmlBuf, name: &str, ui_priority: Option<u32>)
    ensures
        final(x)@ == old(x)@ + lsd_qformat(name@, ui_priority),
{
    let p = opt_dec(ui_priority);
    let mut attrs: Vec<(&str, &str)> = Vec::new();
    attrs.push(("w:name", name));
    let ghost a1 = attrs@;
    push_num_attr(&mut attrs, "w:uiPriority", ui_priority, &p);
    attrs.push(("w:qFormat", "1"));
    proof {
        assert(attr_views(a1) =~= seq![("w:name"@, name@)]);
        assert(attr_views(attrs@) =~= seq![("w:name"@, name@)] + opt_num_attr(
            "w:uiPriority"@,
            ui_priority,
        ) + seq![("w:qFormat"@, "1"@)]);
    }
    x.empty("w:lsdException", attrs.as_slice());
}

fn latent_uipri(x: &mut XmlBuf, name: &str, priority: u32)
    ensures
        final(x)@ == old(x)@ + lsd_uipri(name@, priority),
{
    let p = u64_to_string(priority as u64);
    x.empty2("w:lsdException", "w:name", name, "w:uiPriority", p.as_str());
}

fn latent_heading_exceptions(x: &mut XmlBuf)
    ensures
        final(x)@ == old(x)@ + latent_headings(6),
{
    let ghost s2 = x@;
    let mut level: u32 = 1;
    while level <= 6
        invariant
            1 <= level <= 7,
            x@ == s2 + latent_headings((level - 1) as nat),
        decreases 7 - level,
    {
        let name = prefixed_number("heading ", level as u64);
        latent_qformat(x, name.as_str(), Some(9));
        level = level + 1;
    }
}

fn latent_toc_exceptions(x: &mut XmlBuf)
    ensures
        final(x)@ == old(x)@ + latent_tocs(9),
{
    let ghost s3 = x@;
    let mut n: u32 = 1;
    while n <= 9
        invariant
            1 <= n <= 10,
            x@ == s3 + latent_tocs((n - 1) as nat),
        decreases 10 - n,
    {
        let name = prefixed_number("toc ", n as u64);
        latent_uipri(x, name.as_str(), 39);
        n = n + 1;
    }
}

/// The named qFormat exceptions between the headings and the TOC levels.
pub open spec fn latent_named() -> Seq<char> {
    lsd_qformat("Title"@, Some(10u32)) + lsd_qformat("Subtitle"@, Some(11u32)) + lsd_qformat(
        "Strong"@,
        Some(22u32),
    ) + lsd_qformat("Emphasis"@, Some(20u32)) + lsd_qformat("caption"@, Some(35u32))
        + lsd_qformat("List Paragraph"@, Some(34u32))
}

fn latent_named_exceptions(x: &mut XmlBuf)
    ensures
        final(x)@ == old(x)@ + latent_named(),
{
    latent_qformat(x, "Title", Some(10));
    latent_qformat(x, "Subtitle", Some(11));
    latent_qformat(x, "Strong", Some(22));
    latent_qformat(x, "Emphasis", Some(20));
    latent_qformat(x, "caption", Some(35));
    latent_qformat(x, "List Paragraph", Some(34));
}

fn latent_into(x: &mut XmlBuf)
    ensures
        final(x)@ == old(x)@ + latent_xml(),
{
    let attrs: &[(&str, &str)] = &[
        ("w:defLockedState", "0"),
        ("w:defUIPriority", "99"),
        ("w:defSemiHidden", "0"),
        ("w:defUnhideWhenUsed", "0"),
        ("w:defQFormat", "0"),
        ("w:count", "375"),
    ];
    proof {
        assert(attr_views(attrs@) =~= seq![
            ("w:defLockedState"@, "0"@),
            ("w:defUIPriority"@, "99"@),
            ("w:defSemiHidden"@, "0"@),
            ("w:defUnhideWhenUsed"@, "0"@),
            ("w:defQFormat"@, "0"@),
            ("w:count"@, "375"@),
        ]);
    }
    x.open("w:latentStyles", attrs);
    let ghost s1 = x@;
    // qFormat-on exceptions for the user-visible styles.
    latent_qformat(x, "Normal", Some(0));
    latent_heading_exceptions(x);
    latent_named_exceptions(x);
    // TOC styles need uiPriority 39 so they're visible in Word's
    // "Apply Styles" panel after TOC generation.
    latent_toc_exceptions(x);
    proof {
        assert(x@ =~= s1 + (lsd_qformat("Normal"@, Some(0u32)) + latent_headings(6)
            + latent_named() + latent_tocs(9)));
    }
    x.close("w:latentStyles");
}

/// Build the complete `styles.xml` part.
///
/// Layout:
///   docDefaults (rPrDefault: Calibri 11pt, Latin/EastAsia/CS;
///                pPrDefault: 8pt-after-160, 1.08× line)
///   latentStyles (terse — the qFormat exceptions we depend on)
///   real styles: Normal, DefaultParagraphFont, TableNormal,
///                NoList, Heading1..6, Title, Caption, Hyperlink,
///                FootnoteReference, TOC1..9, TOCHeading,
///                TableofFigures, ListParagraph
pub fn styles() -> (s: String)
    ensures
        s@ == styles_xml(Seq::empty()),
{
    let none: &[StyleOverride] = &[];
    proof {
        assert(override_views(none@) =~= Seq::empty());
    }
    styles_with_overrides(none)
}

/// `styles.xml` with each built-in style patched by the first override
/// naming it.
pub fn styles_with_overrides(overrides: &[StyleOverride]) -> (s: String)
    ensures
        s@ == styles_xml(override_views(overrides@)),
{
    let mut x = XmlBuf::new();
    x.xml_decl();
    x.open1("w:styles", "xmlns:w", "http://schemas.openxmlformats.org/wordprocessingml/2006/main");
    let ghost s1 = x@;
    // docDefaults — required by the style schema; Word also reads these
    // when no override style applies.
    doc_defaults_into(&mut x);
    latent_into(&mut x);
    render_real_styles(&mut x, overrides);
    proof {
        assert(x@ =~= s1 + (doc_defaults_xml() + latent_xml() + render_all(
            builtin_styles(),
            override_views(overrides@),
        )));
    }
    x.close("w:styles");
    x.finish()
}

} // verus!
