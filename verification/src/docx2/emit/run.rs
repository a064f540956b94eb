//! Runs — `<w:r>` + `<w:rPr>` emission from text pieces.
//!
//! Walks a block's `Body::Text` piece list and emits one `<w:r>` per
//! literal, stacking run-property overrides from nested inline elements,
//! so `p(plain @text[weight:bold](bold @text[style:italic](both)) tail)`
//! produces four runs: plain, bold, bold+italic, plain.
//!
//! Inline elements:
//! - `@text` — `weight`, `style`, `decoration`, `color`, `bg`
//! - `@code` — monospace (Courier New)
//! - `@link` — hyperlinks (see [`super::hyperlink`])
//! - `@footnote` — a footnote reference; the text goes to the footnotes part
//! - `@page-number`, `@total-pages` — PAGE / NUMPAGES fields
//!
//! `<w:rPr>` children land in canonical order:
//!   rStyle → rFonts → b → bCs → i → iCs → strike → color → sz → szCs →
//!   highlight → shd → u

use vstd::prelude::*;

use crate::ast_v2::{lookup_str, Block, Body, TextPiece};
use crate::docx::xml::{
    attr1, attr2, attr3, element, empty_tag, group_concat, no_attrs, text_elem, XmlBuf,
};
use crate::keys::first_match;
use crate::text::{
    all_hex, ascii_upper, is_hex_digit, char_len, chars_of, dec, is_all_hex, ov, push_char, push_str,
    strip_leading, strip_leading_char, str_eq, to_owned_string, to_upper_char, trim, trim_spec,
    u64_to_string, upper_char,
};

use super::ctx::{
    link_urls, rid_text, succ, EmitCtx, FootnoteEntry, HyperlinkRel,
};
use super::field::{render_num_pages, render_page, simple_field};
use super::hyperlink;

verus! {

broadcast use group_concat;

/// Run properties. `Option` fields layer over inherited values from a
/// parent inline; `bool` fields turn a property on.
#[derive(Default, Debug)]
pub struct RPr {
    pub bold: bool,
    pub italic: bool,
    pub strike: bool,
    /// Underline value — `"single"`, `"double"`, `"none"`, etc.
    pub underline: Option<String>,
    /// Foreground color as 6-hex RGB (no leading `#`).
    pub color: Option<String>,
    /// Background highlight name (`"yellow"`, …).
    pub highlight: Option<String>,
    /// Run-level shading fill, for a hex `bg`.
    pub shading_fill: Option<String>,
    /// Half-points.
    pub size_hp: Option<u32>,
    /// Font family applied to `ascii`/`hAnsi`.
    pub font_face: Option<String>,
    /// Character style, applied via `<w:rStyle w:val="..."/>`.
    pub r_style: Option<String>,
}

/// Run properties as plain values.
pub struct RPrView {
    pub bold: bool,
    pub italic: bool,
    pub strike: bool,
    pub underline: Option<Seq<char>>,
    pub color: Option<Seq<char>>,
    pub highlight: Option<Seq<char>>,
    pub shading_fill: Option<Seq<char>>,
    pub size_hp: Option<u32>,
    pub font_face: Option<Seq<char>>,
    pub r_style: Option<Seq<char>>,
}

impl View for RPr {
    type V = RPrView;

    open spec fn view(&self) -> RPrView {
        RPrView {
            bold: self.bold,
            italic: self.italic,
            strike: self.strike,
            underline: ov(self.underline),
            color: ov(self.color),
            highlight: ov(self.highlight),
            shading_fill: ov(self.shading_fill),
            size_hp: self.size_hp,
            font_face: ov(self.font_face),
            r_style: ov(self.r_style),
        }
    }
}

/// Run properties with nothing set.
pub open spec fn plain_rpr() -> RPrView {
    RPrView {
        bold: false,
        italic: false,
        strike: false,
        underline: None,
        color: None,
        highlight: None,
        shading_fill: None,
        size_hp: None,
        font_face: None,
        r_style: None,
    }
}

/// `b` layered over `a`: flags OR together, a value set in `b` wins.
pub open spec fn layer(a: RPrView, b: RPrView) -> RPrView {
    RPrView {
        bold: a.bold || b.bold,
        italic: a.italic || b.italic,
        strike: a.strike || b.strike,
        underline: if b.underline is Some {
            b.underline
        } else {
            a.underline
        },
        color: if b.color is Some {
            b.color
        } else {
            a.color
        },
        highlight: if b.highlight is Some {
            b.highlight
        } else {
            a.highlight
        },
        shading_fill: if b.shading_fill is Some {
            b.shading_fill
        } else {
            a.shading_fill
        },
        size_hp: if b.size_hp is Some {
            b.size_hp
        } else {
            a.size_hp
        },
        font_face: if b.font_face is Some {
            b.font_face
        } else {
            a.font_face
        },
        r_style: if b.r_style is Some {
            b.r_style
        } else {
            a.r_style
        },
    }
}

/// Layering `b` (an inner element's properties) over `a` (its
/// surroundings'): every value that `b` sets is the one the run gets, a
/// value of `a` only where `b` leaves it unset, and a flag is on where
/// either turns it on. Layering over nothing, or nothing over `a`, changes
/// nothing, and layering three levels does not depend on grouping.
pub proof fn lemma_layer_inner_wins(a: RPrView, b: RPrView, c: RPrView)
    ensures
        b.underline is Some ==> layer(a, b).underline == b.underline,
        b.color is Some ==> layer(a, b).color == b.color,
        b.highlight is Some ==> layer(a, b).highlight == b.highlight,
        b.shading_fill is Some ==> layer(a, b).shading_fill == b.shading_fill,
        b.size_hp is Some ==> layer(a, b).size_hp == b.size_hp,
        b.font_face is Some ==> layer(a, b).font_face == b.font_face,
        b.r_style is Some ==> layer(a, b).r_style == b.r_style,
        b.underline is None ==> layer(a, b).underline == a.underline,
        b.color is None ==> layer(a, b).color == a.color,
        b.highlight is None ==> layer(a, b).highlight == a.highlight,
        b.shading_fill is None ==> layer(a, b).shading_fill == a.shading_fill,
        b.size_hp is None ==> layer(a, b).size_hp == a.size_hp,
        b.font_face is None ==> layer(a, b).font_face == a.font_face,
        b.r_style is None ==> layer(a, b).r_style == a.r_style,
        layer(a, b).bold == (a.bold || b.bold),
        layer(a, b).italic == (a.italic || b.italic),
        layer(a, b).strike == (a.strike || b.strike),
        layer(plain_rpr(), b) == b,
        layer(a, plain_rpr()) == a,
        layer(layer(a, b), c) == layer(a, layer(b, c)),
{
}

/// Whether nothing is set.
pub open spec fn rpr_is_empty(v: RPrView) -> bool {
    !v.bold && !v.italic && !v.strike && v.underline is None && v.color is None && v.highlight
        is None && v.shading_fill is None && v.size_hp is None && v.font_face is None && v.r_style
        is None
}

/// `<tag/>` when `on`, nothing otherwise.
pub open spec fn flag_tag(on: bool, name: Seq<char>) -> Seq<char> {
    if on {
        empty_tag(name, no_attrs())
    } else {
        Seq::empty()
    }
}

/// `<tag w:val="v"/>` when a value is set, nothing otherwise.
pub open spec fn val_tag(v: Option<Seq<char>>, name: Seq<char>) -> Seq<char> {
    match v {
        Some(s) => empty_tag(name, attr1("w:val"@, s)),
        None => Seq::empty(),
    }
}

/// The children of `<w:rPr>` in canonical order.
pub open spec fn rpr_children(v: RPrView) -> Seq<char> {
    val_tag(v.r_style, "w:rStyle"@) + match v.font_face {
        Some(f) => empty_tag("w:rFonts"@, attr2("w:ascii"@, f, "w:hAnsi"@, f)),
        None => Seq::empty(),
    } + flag_tag(v.bold, "w:b"@) + flag_tag(v.bold, "w:bCs"@) + flag_tag(v.italic, "w:i"@)
        + flag_tag(v.italic, "w:iCs"@) + flag_tag(v.strike, "w:strike"@) + val_tag(
        v.color,
        "w:color"@,
    ) + match v.size_hp {
        Some(sz) => empty_tag("w:sz"@, attr1("w:val"@, dec(sz as nat))) + empty_tag(
            "w:szCs"@,
            attr1("w:val"@, dec(sz as nat)),
        ),
        None => Seq::empty(),
    } + val_tag(v.highlight, "w:highlight"@) + match v.shading_fill {
        Some(f) => empty_tag(
            "w:shd"@,
            attr3("w:val"@, "clear"@, "w:color"@, "auto"@, "w:fill"@, f),
        ),
        None => Seq::empty(),
    } + val_tag(v.underline, "w:u"@)
}

/// `<w:rPr>…</w:rPr>`, or nothing when no property is set.
#[verifier::opaque]
pub open spec fn rpr_xml(v: RPrView) -> Seq<char> {
    if rpr_is_empty(v) {
        Seq::empty()
    } else {
        element("w:rPr"@, no_attrs(), rpr_children(v))
    }
}

pub(crate) fn clone_opt(o: &Option<String>) -> (r: Option<String>)
    ensures
        ov(r) == ov(*o),
{
    match o {
        Some(s) => Some(to_owned_string(s.as_str())),
        None => None,
    }
}

fn prefer(b: &Option<String>, a: &Option<String>) -> (r: Option<String>)
    ensures
        ov(r) == if ov(*b) is Some {
            ov(*b)
        } else {
            ov(*a)
        },
{
    if b.is_some() {
        clone_opt(b)
    } else {
        clone_opt(a)
    }
}

fn flag_into(on: bool, name: &str, x: &mut XmlBuf)
    ensures
        final(x)@ == old(x)@ + flag_tag(on, name@),
{
    if on {
        x.empty0(name);
    }
}

fn val_into(v: &Option<String>, name: &str, x: &mut XmlBuf)
    ensures
        final(x)@ == old(x)@ + val_tag(ov(*v), name@),
{
    if let Some(s) = v {
        x.empty1(name, "w:val", s.as_str());
    }
}

impl RPr {
    pub fn is_empty(&self) -> (r: bool)
        ensures
            r == rpr_is_empty(self@),
    {
        !self.bold && !self.italic && !self.strike && self.underline.is_none()
            && self.color.is_none() && self.highlight.is_none() && self.shading_fill.is_none()
            && self.size_hp.is_none() && self.font_face.is_none() && self.r_style.is_none()
    }

    /// Layer `other` on top of `self`. Boolean flags OR together;
    /// `Option` fields prefer `other` when set, otherwise inherit from
    /// `self`.
    pub fn merged(&self, other: &RPr) -> (r: RPr)
        ensures
            r@ == layer(self@, other@),
    {
        RPr {
            bold: self.bold || other.bold,
            italic: self.italic || other.italic,
            strike: self.strike || other.strike,
            underline: prefer(&other.underline, &self.underline),
            color: prefer(&other.color, &self.color),
            highlight: prefer(&other.highlight, &self.highlight),
            shading_fill: prefer(&other.shading_fill, &self.shading_fill),
            size_hp: if other.size_hp.is_some() {
                other.size_hp
            } else {
                self.size_hp
            },
            font_face: prefer(&other.font_face, &self.font_face),
            r_style: prefer(&other.r_style, &self.r_style),
        }
    }

    /// Emit `<w:rPr>` with children in canonical schema order. No-op if
    /// `is_empty()`.
    pub fn render(&self, x: &mut XmlBuf)
        ensures
            final(x)@ == old(x)@ + rpr_xml(self@),
    {
        reveal(rpr_xml);
        if self.is_empty() {
            return;
        }
        x.open0("w:rPr");
        val_into(&self.r_style, "w:rStyle", x);
        if let Some(face) = &self.font_face {
            x.empty2("w:rFonts", "w:ascii", face.as_str(), "w:hAnsi", face.as_str());
        }
        flag_into(self.bold, "w:b", x);
        flag_into(self.bold, "w:bCs", x);
        flag_into(self.italic, "w:i", x);
        flag_into(self.italic, "w:iCs", x);
        flag_into(self.strike, "w:strike", x);
        val_into(&self.color, "w:color", x);
        if let Some(sz) = self.size_hp {
            let s = u64_to_string(sz as u64);
            x.empty1("w:sz", "w:val", s.as_str());
            x.empty1("w:szCs", "w:val", s.as_str());
        }
        val_into(&self.highlight, "w:highlight", x);
        if let Some(fill) = &self.shading_fill {
            x.empty3("w:shd", "w:val", "clear", "w:color", "auto", "w:fill", fill.as_str());
        }
        val_into(&self.underline, "w:u", x);
        x.close("w:rPr");
    }
}

// ------------------------------------------------------------------
// Colors
// ------------------------------------------------------------------

/// A color property as Word wants it: `#RRGGBB`, `RRGGBB` or `#RGB`
/// (surrounding whitespace and any leading `#`s ignored) as six
/// upper-case hex digits; anything else is no color.
#[verifier::opaque]
pub open spec fn norm_color(s: Seq<char>) -> Option<Seq<char>> {
    let t = strip_leading(trim_spec(s), '#');
    if t.len() == 6 && all_hex(t) {
        Some(t.map_values(|c: char| upper_char(c)))
    } else if t.len() == 3 && all_hex(t) {
        Some(
            seq![
                upper_char(t[0]),
                upper_char(t[0]),
                upper_char(t[1]),
                upper_char(t[1]),
                upper_char(t[2]),
                upper_char(t[2]),
            ],
        )
    } else {
        None
    }
}

/// A normalised color is six upper-case hex digits, and a three-digit
/// color doubles each of its digits.
pub proof fn lemma_norm_color_canonical(s: Seq<char>)
    ensures
        norm_color(s) matches Some(c) ==> {
            &&& c.len() == 6
            &&& all_hex(c)
            &&& forall|i: int| 0 <= i < 6 ==> !('a' <= #[trigger] c[i] <= 'z')
        },
        ({
            let t = strip_leading(trim_spec(s), '#');
            (t.len() == 3 && all_hex(t)) ==> (norm_color(s) matches Some(c) && forall|i: int|
                0 <= i < 3 ==> c[2 * i] == c[2 * i + 1] && c[2 * i] == upper_char(#[trigger] t[i]))
        }),
{
    reveal(norm_color);
    let t = strip_leading(trim_spec(s), '#');
    if let Some(c) = norm_color(s) {
        assert forall|i: int| 0 <= i < 6 implies is_hex_digit(#[trigger] c[i]) && !('a' <= c[i]
            <= 'z') by {
            if t.len() == 6 {
                assert(is_hex_digit(t[i]));
            } else {
                assert(c[i] == upper_char(t[i / 2]));
                assert(is_hex_digit(t[i / 2]));
            }
        }
    }
    if t.len() == 3 && all_hex(t) {
        let c = norm_color(s).unwrap();
        assert forall|i: int| 0 <= i < 3 implies c[2 * i] == c[2 * i + 1] && c[2 * i] == upper_char(
            #[trigger] t[i],
        ) by {
            if i == 0 {
            } else if i == 1 {
            } else {
            }
        }
    }
}

/// Accept either a `#RRGGBB`, `RRGGBB`, or a `#RGB` color; returns
/// canonical `RRGGBB` upper case.
pub(crate) fn normalize_color(s: &str) -> (r: Option<String>)
    ensures
        ov(r) == norm_color(s@),
{
    reveal(norm_color);
    let trimmed = trim(s);
    let t = strip_leading_char(trimmed.as_str(), '#');
    let n = char_len(t.as_str());
    if n == 6 && is_all_hex(t.as_str()) {
        return Some(ascii_upper(t.as_str()));
    }
    if n == 3 && is_all_hex(t.as_str()) {
        let cs = chars_of(t.as_str());
        let mut out = String::new();
        let mut i: usize = 0;
        while i < 3
            invariant
                i <= 3,
                cs@ == t@,
                cs@.len() == 3,
                out@ == Seq::new(2 * i as nat, |j: int| upper_char(cs@[j / 2])),
            decreases 3 - i,
        {
            let u = to_upper_char(cs[i]);
            push_char(&mut out, u);
            push_char(&mut out, u);
            i = i + 1;
            proof {
                assert(out@ =~= Seq::new(2 * i as nat, |j: int| upper_char(cs@[j / 2])));
            }
        }
        proof {
            assert(out@ =~= seq![
                upper_char(t@[0]),
                upper_char(t@[0]),
                upper_char(t@[1]),
                upper_char(t@[1]),
                upper_char(t@[2]),
                upper_char(t@[2]),
            ]);
        }
        return Some(out);
    }
    None
}

// ------------------------------------------------------------------
// Inline run properties
// ------------------------------------------------------------------

/// The run properties an `@text` element sets from its own properties.
#[verifier::opaque]
pub open spec fn text_rpr(b: Block) -> RPrView {
    let props = b.properties@;
    let style = lookup_str(props, "style"@);
    let deco = lookup_str(props, "decoration"@);
    RPrView {
        bold: lookup_str(props, "weight"@) == Some("bold"@),
        italic: style == Some("italic"@) || style == Some("oblique"@),
        strike: deco == Some("strike"@),
        underline: if deco == Some("underline"@) {
            Some("single"@)
        } else {
            None
        },
        color: match lookup_str(props, "color"@) {
            Some(c) => norm_color(c),
            None => None,
        },
        highlight: None,
        shading_fill: match lookup_str(props, "bg"@) {
            Some(c) => norm_color(c),
            None => None,
        },
        size_hp: None,
        font_face: None,
        r_style: None,
    }
}

/// What an `@text` element's own properties give its runs: bold exactly
/// for `weight:bold`, italic exactly for `style:italic` or `style:oblique`,
/// a single underline exactly for `decoration:underline` and strike-through
/// exactly for `decoration:strike` (never both), and its `color` and `bg`
/// as normalised colors; nothing else.
pub proof fn lemma_text_rpr_reads_properties(b: Block)
    ensures
        ({
            let props = b.properties@;
            let r = text_rpr(b);
            &&& r.bold <==> lookup_str(props, "weight"@) == Some("bold"@)
            &&& r.italic <==> (lookup_str(props, "style"@) == Some("italic"@) || lookup_str(
                props,
                "style"@,
            ) == Some("oblique"@))
            &&& r.strike <==> lookup_str(props, "decoration"@) == Some("strike"@)
            &&& r.underline is Some <==> lookup_str(props, "decoration"@) == Some("underline"@)
            &&& r.underline is Some ==> r.underline == Some("single"@)
            &&& !(r.strike && r.underline is Some)
            &&& lookup_str(props, "color"@) matches Some(c) ==> r.color == norm_color(c)
            &&& lookup_str(props, "color"@) is None ==> r.color is None
            &&& lookup_str(props, "bg"@) matches Some(c) ==> r.shading_fill == norm_color(c)
            &&& lookup_str(props, "bg"@) is None ==> r.shading_fill is None
            &&& r.highlight is None && r.size_hp is None && r.font_face is None && r.r_style is None
        }),
{
    reveal(text_rpr);
    reveal_strlit("strike");
    reveal_strlit("underline");
    assert("strike"@.len() != "underline"@.len());
}

/// The run properties of `@code`: Courier New.
pub open spec fn code_rpr() -> RPrView {
    RPrView { font_face: Some("Courier New"@), ..plain_rpr() }
}

/// The run properties of hyperlink text: the Hyperlink character style.
pub open spec fn hyperlink_rpr() -> RPrView {
    RPrView { r_style: Some("Hyperlink"@), ..plain_rpr() }
}

fn opt_eq(o: Option<&str>, lit: &str) -> (r: bool)
    ensures
        r == (match o {
            Some(s) => s@ == lit@,
            None => false,
        }),
{
    match o {
        Some(s) => str_eq(s, lit),
        None => false,
    }
}

fn rpr_from_text(b: &Block) -> (r: RPr)
    ensures
        r@ == text_rpr(*b),
{
    reveal(text_rpr);
    let bold = opt_eq(b.prop_str("weight"), "bold");
    let style = b.prop_str("style");
    let italic = opt_eq(style, "italic") || opt_eq(style, "oblique");
    let deco = b.prop_str("decoration");
    let underline = if opt_eq(deco, "underline") {
        Some(to_owned_string("single"))
    } else {
        None
    };
    let strike = opt_eq(deco, "strike");
    let color = match b.prop_str("color") {
        Some(c) => normalize_color(c),
        None => None,
    };
    let shading_fill = match b.prop_str("bg") {
        Some(bg) => normalize_color(bg),
        None => None,
    };
    RPr {
        bold,
        italic,
        strike,
        underline,
        color,
        highlight: None,
        shading_fill,
        size_hp: None,
        font_face: None,
        r_style: None,
    }
}

impl RPr {
    /// Run properties with nothing set.
    pub fn default_value() -> (r: RPr)
        ensures
            r@ == plain_rpr(),
    {
        RPr {
            bold: false,
            italic: false,
            strike: false,
            underline: None,
            color: None,
            highlight: None,
            shading_fill: None,
            size_hp: None,
            font_face: None,
            r_style: None,
        }
    }
}

fn rpr_code() -> (r: RPr)
    ensures
        r@ == code_rpr(),
{
    let mut r = RPr::default_value();
    r.font_face = Some(to_owned_string("Courier New"));
    r
}

pub(crate) fn rpr_hyperlink() -> (r: RPr)
    ensures
        r@ == hyperlink_rpr(),
{
    let mut r = RPr::default_value();
    r.r_style = Some(to_owned_string("Hyperlink"));
    r
}

// ------------------------------------------------------------------
// Text flattening
// ------------------------------------------------------------------

/// The literal pieces of a text body, in order (empty for other bodies).
pub open spec fn text_pieces(b: Block) -> Seq<TextPiece> {
    match b.body {
        Body::Text(pieces) => pieces@,
        _ => Seq::empty(),
    }
}

/// The text of the first `k` pieces of `b`'s text body, with inline
/// elements flattened to their own text.
pub open spec fn flat_prefix(b: Block, k: nat) -> Seq<char>
    decreases b, k,
{
    match b.body {
        Body::Text(pieces) => {
            if k == 0 || k > pieces@.len() {
                Seq::empty()
            } else {
                proof {
                    assert(decreases_to!(b => b.body));
                    assert(decreases_to!(b.body => pieces));
                    assert(decreases_to!(pieces => pieces@));
                }
                flat_prefix(b, (k - 1) as nat) + match pieces@[k - 1] {
                    TextPiece::Literal { text, .. } => text@,
                    TextPiece::Inline(inner) => {
                        proof {
                            assert(decreases_to!(pieces@ => pieces@[k - 1]));
                        }
                        flat_prefix(inner, text_pieces(inner).len())
                    },
                }
            }
        },
        _ => Seq::empty(),
    }
}

/// All the text of a block's text body, inline elements flattened.
pub open spec fn flat_text(b: Block) -> Seq<char> {
    flat_prefix(b, text_pieces(b).len())
}

/// The flattened text of a block's body.
pub fn flatten_inline_text(b: &Block) -> (r: String)
    ensures
        r@ == flat_text(*b),
    decreases b,
{
    let mut out = String::new();
    if let Body::Text(pieces) = &b.body {
        let mut i: usize = 0;
        while i < pieces.len()
            invariant
                i <= pieces@.len(),
                b.body == Body::Text(*pieces),
                out@ == flat_prefix(*b, i as nat),
            decreases pieces@.len() - i,
        {
            match &pieces[i] {
                TextPiece::Literal { text, .. } => push_str(&mut out, text.as_str()),
                TextPiece::Inline(inner) => {
                    proof {
                        assert(decreases_to!(*b => b.body));
                        assert(decreases_to!(b.body => *pieces));
                        assert(decreases_to!(*pieces => pieces@));
                        assert(decreases_to!(pieces@ => pieces@[i as int]));
                    }
                    let t = flatten_inline_text(inner);
                    push_str(&mut out, t.as_str());
                },
            }
            i = i + 1;
        }
    }
    out
}

// ------------------------------------------------------------------
// Run emission
// ------------------------------------------------------------------

/// One `<w:r>` carrying `text` with the given properties.
#[verifier::opaque]
pub open spec fn run_xml(text: Seq<char>, rpr: RPrView) -> Seq<char> {
    element("w:r"@, no_attrs(), rpr_xml(rpr) + text_elem("w:t"@, no_attrs(), text, true))
}

/// The footnote-reference run for footnote `id`.
#[verifier::opaque]
pub open spec fn footnote_ref_xml(id: u32) -> Seq<char> {
    element(
        "w:r"@,
        no_attrs(),
        element("w:rPr"@, no_attrs(), empty_tag("w:rStyle"@, attr1("w:val"@, "FootnoteReference"@)))
            + empty_tag("w:footnoteReference"@, attr1("w:id"@, dec(id as nat))),
    )
}

/// `<w:r><w:br w:type="page"/></w:r>`.
#[verifier::opaque]
pub open spec fn page_break_xml() -> Seq<char> {
    element("w:r"@, no_attrs(), empty_tag("w:br"@, attr1("w:type"@, "page"@)))
}

/// Emit one complete `<w:r>...</w:r>` carrying `text`.
pub(crate) fn emit_run(text: &str, rpr: &RPr, x: &mut XmlBuf)
    ensures
        final(x)@ == old(x)@ + run_xml(text@, rpr@),
{
    reveal(run_xml);
    x.open0("w:r");
    rpr.render(x);
    x.text0("w:t", text, true);
    x.close("w:r");
}

fn emit_footnote_ref(id: u32, x: &mut XmlBuf)
    ensures
        final(x)@ == old(x)@ + footnote_ref_xml(id),
{
    reveal(footnote_ref_xml);
    let id_s = u64_to_string(id as u64);
    x.open0("w:r");
    x.open0("w:rPr");
    x.empty1("w:rStyle", "w:val", "FootnoteReference");
    x.close("w:rPr");
    x.empty1("w:footnoteReference", "w:id", id_s.as_str());
    x.close("w:r");
}

/// Emit `<w:r><w:br w:type="page"/></w:r>`. Used by pagebreak.
pub fn render_page_break(x: &mut XmlBuf)
    ensures
        final(x)@ == old(x)@ + page_break_xml(),
{
    reveal(page_break_xml);
    x.open0("w:r");
    x.empty1("w:br", "w:type", "page");
    x.close("w:r");
}

// ------------------------------------------------------------------
// The state that run emission threads through the context
// ------------------------------------------------------------------

/// What run emission reads and changes in the context: the rId
/// counter, the hyperlink registry, the footnote counter and registry.
pub struct RunState {
    pub next_rid: u32,
    pub links: Seq<(Seq<char>, Seq<char>)>,
    pub next_note: u32,
    pub notes: Seq<(u32, Seq<char>)>,
}

pub open spec fn link_pairs(v: Seq<HyperlinkRel>) -> Seq<(Seq<char>, Seq<char>)> {
    v.map_values(|l: HyperlinkRel| (l.rid@, l.url@))
}

pub open spec fn note_pairs(v: Seq<FootnoteEntry>) -> Seq<(u32, Seq<char>)> {
    v.map_values(|n: FootnoteEntry| (n.id, n.text@))
}

pub open spec fn run_state(c: EmitCtx) -> RunState {
    RunState {
        next_rid: c.next_rid,
        links: link_pairs(c.hyperlinks@),
        next_note: c.next_footnote_id,
        notes: note_pairs(c.footnotes@),
    }
}

/// Everything run emission leaves alone.
pub open spec fn run_frame(a: EmitCtx, b: EmitCtx) -> bool {
    &&& a.image_base == b.image_base
    &&& a.image_sources == b.image_sources
    &&& a.images == b.images
    &&& a.heading_anchors == b.heading_anchors
    &&& a.captions == b.captions
    &&& a.headers == b.headers
    &&& a.footers == b.footers
    &&& a.header_scopes == b.header_scopes
    &&& a.footer_scopes == b.footer_scopes
    &&& a.header_rids == b.header_rids
    &&& a.footer_rids == b.footer_rids
    &&& a.style_overrides == b.style_overrides
    &&& a.table_caption_seq == b.table_caption_seq
    &&& a.figure_caption_seq == b.figure_caption_seq
    &&& a.next_drawing_id == b.next_drawing_id
    &&& a.next_bookmark_id == b.next_bookmark_id
}

/// Registering an external link: the first rId of the same URL, or a
/// fresh rId appended to the registry.
pub open spec fn state_add_link(s: RunState, url: Seq<char>) -> (Seq<char>, RunState) {
    match first_match(s.links.map_values(|p: (Seq<char>, Seq<char>)| p.1), url) {
        Some(i) => (s.links[i].0, s),
        None => (
            rid_text(s.next_rid),
            RunState {
                next_rid: succ(s.next_rid),
                links: s.links.push((rid_text(s.next_rid), url)),
                ..s
            },
        ),
    }
}

/// Registering a footnote.
pub open spec fn state_add_note(s: RunState, text: Seq<char>) -> (u32, RunState) {
    (
        s.next_note,
        RunState { next_note: succ(s.next_note), notes: s.notes.push((s.next_note, text)), ..s },
    )
}

/// Where a link points.
pub enum LinkTargetView {
    Anchor(Seq<char>),
    External(Seq<char>),
}

/// `ref://name` and `#name` are in-package anchors; anything else is an
/// external URI.
pub open spec fn target_of(s: Seq<char>) -> LinkTargetView {
    if 6 <= s.len() && s.take(6) == "ref://"@ {
        LinkTargetView::Anchor(s.skip(6))
    } else if s.len() > 0 && s[0] == '#' {
        LinkTargetView::Anchor(s.drop_first())
    } else {
        LinkTargetView::External(s)
    }
}

/// The serialized runs of the first `k` pieces of `b`'s text body, each
/// literal carrying `base`, and the context state afterwards.
pub open spec fn pieces_out(b: Block, k: nat, base: RPrView, s: RunState) -> (Seq<char>, RunState)
    decreases b, 0nat, k,
{
    match b.body {
        Body::Text(pieces) => {
            if k == 0 || k > pieces@.len() {
                (Seq::empty(), s)
            } else {
                proof {
                    assert(decreases_to!(b => b.body));
                    assert(decreases_to!(b.body => pieces));
                    assert(decreases_to!(pieces => pieces@));
                }
                let (o1, s1) = pieces_out(b, (k - 1) as nat, base, s);
                match pieces@[k - 1] {
                    TextPiece::Literal { text, .. } => {
                        if text@.len() == 0 {
                            (o1, s1)
                        } else {
                            (o1 + run_xml(text@, base), s1)
                        }
                    },
                    TextPiece::Inline(inner) => {
                        proof {
                            assert(decreases_to!(pieces@ => pieces@[k - 1]));
                        }
                        let (o2, s2) = inline_out(inner, base, s1);
                        (o1 + o2, s2)
                    },
                }
            }
        },
        _ => (Seq::empty(), s),
    }
}

/// The runs of the first `k` children of `b` (a children body), each
/// child's text body rendered over `cur`.
pub open spec fn children_out(b: Block, k: nat, cur: RPrView, s: RunState) -> (
    Seq<char>,
    RunState,
)
    decreases b, 0nat, k,
{
    match b.body {
        Body::Children(kids) => {
            if k == 0 || k > kids@.len() {
                (Seq::empty(), s)
            } else {
                proof {
                    assert(decreases_to!(b => b.body));
                    assert(decreases_to!(b.body => kids));
                    assert(decreases_to!(kids => kids@));
                    assert(decreases_to!(kids@ => kids@[k - 1]));
                }
                let (o1, s1) = children_out(b, (k - 1) as nat, cur, s);
                let child = kids@[k - 1];
                let (o2, s2) = pieces_out(child, text_pieces(child).len(), cur, s1);
                (o1 + o2, s2)
            }
        },
        _ => (Seq::empty(), s),
    }
}

/// An inline element's own content rendered over `cur`.
pub open spec fn inner_out(b: Block, cur: RPrView, s: RunState) -> (Seq<char>, RunState)
    decreases b, 1nat, 0nat,
{
    match b.body {
        Body::Text(pieces) => pieces_out(b, pieces@.len(), cur, s),
        Body::Children(kids) => children_out(b, kids@.len(), cur, s),
        Body::Empty => (Seq::empty(), s),
    }
}

/// The visible part of a link: its text body over `rpr`, or a single
/// run with the target text (or `link`) when the body has no pieces.
pub open spec fn link_body_out(b: Block, rpr: RPrView, s: RunState) -> (Seq<char>, RunState)
    decreases b, 1nat, 0nat,
{
    if b.body is Text && text_pieces(b).len() > 0 {
        pieces_out(b, text_pieces(b).len(), rpr, s)
    } else {
        let fallback = match lookup_str(b.properties@, "to"@) {
            Some(t) => t,
            None => "link"@,
        };
        (run_xml(fallback, rpr), s)
    }
}

/// An `@link` element: a `<w:hyperlink>` to an anchor or to an external
/// relationship, its runs carrying the Hyperlink style over `parent`.
pub open spec fn link_out(b: Block, parent: RPrView, s: RunState) -> (Seq<char>, RunState)
    decreases b, 2nat, 0nat,
{
    match lookup_str(b.properties@, "to"@) {
        None => link_body_out(b, parent, s),
        Some(to) => {
            let rpr = layer(parent, hyperlink_rpr());
            match target_of(to) {
                LinkTargetView::External(url) => {
                    let (rid, s1) = state_add_link(s, url);
                    let (o, s2) = link_body_out(b, rpr, s1);
                    (
                        element(
                            "w:hyperlink"@,
                            attr2("r:id"@, rid, "w:history"@, "1"@),
                            o,
                        ),
                        s2,
                    )
                },
                LinkTargetView::Anchor(name) => {
                    let (o, s1) = link_body_out(b, rpr, s);
                    (
                        element(
                            "w:hyperlink"@,
                            attr2("w:anchor"@, name, "w:history"@, "1"@),
                            o,
                        ),
                        s1,
                    )
                },
            }
        },
    }
}

/// One inline element over the inherited properties `parent`.
pub open spec fn inline_out(b: Block, parent: RPrView, s: RunState) -> (Seq<char>, RunState)
    decreases b, 3nat, 0nat,
{
    let name = b.name@;
    if name == "text"@ {
        inner_out(b, layer(parent, text_rpr(b)), s)
    } else if name == "code"@ {
        inner_out(b, layer(parent, code_rpr()), s)
    } else if name == "link"@ {
        link_out(b, parent, s)
    } else if name == "footnote"@ {
        let (id, s1) = state_add_note(s, flat_text(b));
        (footnote_ref_xml(id), s1)
    } else if name == "page-number"@ {
        (simple_field(" PAGE   \\* MERGEFORMAT "@, "1"@), s)
    } else if name == "total-pages"@ {
        (simple_field(" NUMPAGES   \\* MERGEFORMAT "@, "1"@), s)
    } else {
        inner_out(b, parent, s)
    }
}

/// All runs of a block's text body over `base`.
pub open spec fn body_out(b: Block, base: RPrView, s: RunState) -> (Seq<char>, RunState) {
    pieces_out(b, text_pieces(b).len(), base, s)
}

// ------------------------------------------------------------------
// Body walk
// ------------------------------------------------------------------

/// Append every run that belongs to `b`'s body. Inline elements stack
/// their run properties on top of the empty base.
pub fn render_body(b: &Block, ctx: &mut EmitCtx, x: &mut XmlBuf)
    ensures
        final(x)@ == old(x)@ + body_out(*b, plain_rpr(), run_state(*old(ctx))).0,
        run_state(*final(ctx)) == body_out(*b, plain_rpr(), run_state(*old(ctx))).1,
        run_frame(*old(ctx), *final(ctx)),
{
    let base = RPr::default_value();
    render_body_with(b, ctx, x, &base);
}

/// Same as [`render_body`] but starting from the supplied base run
/// properties.
pub fn render_body_with(b: &Block, ctx: &mut EmitCtx, x: &mut XmlBuf, base: &RPr)
    ensures
        final(x)@ == old(x)@ + body_out(*b, base@, run_state(*old(ctx))).0,
        run_state(*final(ctx)) == body_out(*b, base@, run_state(*old(ctx))).1,
        run_frame(*old(ctx), *final(ctx)),
    decreases b, 0nat,
{
    if let Body::Text(pieces) = &b.body {
        let ghost x0 = x@;
        let ghost s0 = run_state(*ctx);
        let ghost c0 = *ctx;
        let mut i: usize = 0;
        while i < pieces.len()
            invariant
                i <= pieces@.len(),
                b.body == Body::Text(*pieces),
                x@ == x0 + pieces_out(*b, i as nat, base@, s0).0,
                run_state(*ctx) == pieces_out(*b, i as nat, base@, s0).1,
                run_frame(c0, *ctx),
            decreases pieces@.len() - i,
        {
            proof {
                assert(decreases_to!(*b => b.body));
                assert(decreases_to!(b.body => *pieces));
                assert(decreases_to!(*pieces => pieces@));
                assert(decreases_to!(pieces@ => pieces@[i as int]));
            }
            render_piece(&pieces[i], ctx, x, base);
            i = i + 1;
        }
    }
}

fn render_piece(piece: &TextPiece, ctx: &mut EmitCtx, x: &mut XmlBuf, parent: &RPr)
    ensures
        ({
            let (o, s) = match *piece {
                TextPiece::Literal { text, .. } => if text@.len() == 0 {
                    (Seq::empty(), run_state(*old(ctx)))
                } else {
                    (run_xml(text@, parent@), run_state(*old(ctx)))
                },
                TextPiece::Inline(inner) => inline_out(inner, parent@, run_state(*old(ctx))),
            };
            &&& final(x)@ == old(x)@ + o
            &&& run_state(*final(ctx)) == s
        }),
        run_frame(*old(ctx), *final(ctx)),
    decreases piece, 0nat,
{
    match piece {
        TextPiece::Literal { text, .. } => {
            if char_len(text.as_str()) != 0 {
                emit_run(text.as_str(), parent, x);
            }
        },
        TextPiece::Inline(inline) => render_inline(inline, ctx, x, parent),
    }
}

fn render_inline(inline: &Block, ctx: &mut EmitCtx, x: &mut XmlBuf, parent: &RPr)
    ensures
        final(x)@ == old(x)@ + inline_out(*inline, parent@, run_state(*old(ctx))).0,
        run_state(*final(ctx)) == inline_out(*inline, parent@, run_state(*old(ctx))).1,
        run_frame(*old(ctx), *final(ctx)),
    decreases inline, 3nat,
{
    let name = inline.name.as_str();
    if str_eq(name, "text") {
        let own = rpr_from_text(inline);
        let layered = parent.merged(&own);
        render_inner(inline, ctx, x, &layered);
    } else if str_eq(name, "code") {
        let code = rpr_code();
        let layered = parent.merged(&code);
        render_inner(inline, ctx, x, &layered);
    } else if str_eq(name, "link") {
        hyperlink::render_link(inline, ctx, parent, x);
    } else if str_eq(name, "footnote") {
        let text = flatten_inline_text(inline);
        let ghost tv = text@;
        let id = ctx.add_footnote(text);
        proof {
            assert(note_pairs(ctx.footnotes@) =~= note_pairs(old(ctx).footnotes@).push((id, tv)));
        }
        emit_footnote_ref(id, x);
    } else if str_eq(name, "page-number") {
        render_page(x);
    } else if str_eq(name, "total-pages") {
        render_num_pages(x);
    } else {
        render_inner(inline, ctx, x, parent);
    }
}

/// Recurse into an inline's body so nested inlines keep stacking.
fn render_inner(inline: &Block, ctx: &mut EmitCtx, x: &mut XmlBuf, current: &RPr)
    ensures
        final(x)@ == old(x)@ + inner_out(*inline, current@, run_state(*old(ctx))).0,
        run_state(*final(ctx)) == inner_out(*inline, current@, run_state(*old(ctx))).1,
        run_frame(*old(ctx), *final(ctx)),
    decreases inline, 1nat,
{
    match &inline.body {
        Body::Empty => {},
        Body::Text(pieces) => {
            let ghost x0 = x@;
            let ghost s0 = run_state(*ctx);
            let ghost c0 = *ctx;
            let mut i: usize = 0;
            while i < pieces.len()
                invariant
                    i <= pieces@.len(),
                    inline.body == Body::Text(*pieces),
                    x@ == x0 + pieces_out(*inline, i as nat, current@, s0).0,
                    run_state(*ctx) == pieces_out(*inline, i as nat, current@, s0).1,
                    run_frame(c0, *ctx),
                decreases pieces@.len() - i,
            {
                proof {
                    assert(decreases_to!(*inline => inline.body));
                    assert(decreases_to!(inline.body => *pieces));
                    assert(decreases_to!(*pieces => pieces@));
                    assert(decreases_to!(pieces@ => pieces@[i as int]));
                }
                render_piece(&pieces[i], ctx, x, current);
                i = i + 1;
            }
        },
        Body::Children(blocks) => {
            let ghost x0 = x@;
            let ghost s0 = run_state(*ctx);
            let ghost c0 = *ctx;
            let mut i: usize = 0;
            while i < blocks.len()
                invariant
                    i <= blocks@.len(),
                    inline.body == Body::Children(*blocks),
                    x@ == x0 + children_out(*inline, i as nat, current@, s0).0,
                    run_state(*ctx) == children_out(*inline, i as nat, current@, s0).1,
                    run_frame(c0, *ctx),
                decreases blocks@.len() - i,
            {
                proof {
                    assert(decreases_to!(*inline => inline.body));
                    assert(decreases_to!(inline.body => *blocks));
                    assert(decreases_to!(*blocks => blocks@));
                    assert(decreases_to!(blocks@ => blocks@[i as int]));
                }
                render_body_with(&blocks[i], ctx, x, current);
                i = i + 1;
            }
        },
    }
}

} // verus!
