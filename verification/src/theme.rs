//! Theme types — small, stable, format-agnostic. Renderers map these
//! names to format-native concepts (hex codes, named styles, etc.).

use vstd::prelude::*;

use crate::keys::{first_match, lemma_first_match, lemma_first_match_is};
use crate::text::{chars_of, lemma_sorted_from_neighbours, push_char, seq_lt, str_eq, strictly_sorted, to_owned_string};

verus! {

/// A theme: a name, a set of named colors, and font stacks. The colors
/// are kept as a list; a well-formed theme ([`theme_wf`]) lists each
/// name once, in increasing order, as a sorted map would.
#[derive(Clone, Debug)]
pub struct Theme {
    pub name: String,
    pub colors: Vec<(String, ThemeColor)>,
    pub fonts: ThemeFonts,
}

#[derive(Clone, Copy, Debug, PartialEq, Eq, Hash, Structural)]
pub struct ThemeColor {
    /// RGB triple in the sRGB color space.
    pub r: u8,
    pub g: u8,
    pub b: u8,
}

/// Lower-case hex digit for `n` (0..=15).
pub open spec fn hex_lower(n: nat) -> char {
    if n < 10 {
        ((48 + n) as u8) as char
    } else {
        ((87 + n) as u8) as char
    }
}

/// Two lower-case hex digits for a byte.
pub open spec fn hex2(v: u8) -> Seq<char> {
    seq![hex_lower((v / 16) as nat), hex_lower((v % 16) as nat)]
}

/// `#rrggbb`, lower case.
pub open spec fn color_hex(c: ThemeColor) -> Seq<char> {
    seq!['#'] + hex2(c.r) + hex2(c.g) + hex2(c.b)
}

fn hex_digit_lower(n: u8) -> (c: char)
    requires
        n < 16,
    ensures
        c == hex_lower(n as nat),
{
    if n < 10 {
        (48u8 + n) as char
    } else {
        (87u8 + n) as char
    }
}

fn push_hex2(out: &mut String, v: u8)
    ensures
        final(out)@ == old(out)@ + hex2(v),
{
    push_char(out, hex_digit_lower(v / 16));
    push_char(out, hex_digit_lower(v % 16));
    proof {
        assert(final(out)@ =~= old(out)@ + hex2(v));
    }
}

impl ThemeColor {
    pub fn rgb(r: u8, g: u8, b: u8) -> (c: Self)
        ensures
            c == (ThemeColor { r, g, b }),
    {
        Self { r, g, b }
    }

    /// `#rrggbb` in lower case.
    pub fn to_hex(self) -> (s: String)
        ensures
            s@ == color_hex(self),
    {
        let mut s = String::new();
        push_char(&mut s, '#');
        push_hex2(&mut s, self.r);
        push_hex2(&mut s, self.g);
        push_hex2(&mut s, self.b);
        proof {
            assert(s@ =~= color_hex(self));
        }
        s
    }
}

#[derive(Clone, Debug)]
pub struct ThemeFonts {
    pub body: String,
    pub heading: String,
    pub mono: String,
}

impl ThemeFonts {
    /// The default font stacks: system UI fonts for body and headings,
    /// the platform monospace stack for code.
    pub fn default() -> (f: Self)
        ensures
            f.body@ == "system-ui, -apple-system, Segoe UI, sans-serif"@,
            f.heading@ == "system-ui, -apple-system, Segoe UI, sans-serif"@,
            f.mono@ == "ui-monospace, SFMono-Regular, Menlo, monospace"@,
    {
        Self {
            body: to_owned_string("system-ui, -apple-system, Segoe UI, sans-serif"),
            heading: to_owned_string("system-ui, -apple-system, Segoe UI, sans-serif"),
            mono: to_owned_string("ui-monospace, SFMono-Regular, Menlo, monospace"),
        }
    }
}

/// The names of a color table, in order.
pub open spec fn color_names(colors: Seq<(String, ThemeColor)>) -> Seq<Seq<char>> {
    colors.map_values(|e: (String, ThemeColor)| e.0@)
}

/// The registered color called `name`, if any.
pub open spec fn named_color(colors: Seq<(String, ThemeColor)>, name: Seq<char>) -> Option<
    ThemeColor,
> {
    match first_match(color_names(colors), name) {
        Some(i) => Some(colors[i].1),
        None => None,
    }
}

/// The value of one hex digit (either case).
pub open spec fn hex_val(c: char) -> Option<nat> {
    if '0' <= c <= '9' {
        Some(((c as int) - 48) as nat)
    } else if 'a' <= c <= 'f' {
        Some(((c as int) - 87) as nat)
    } else if 'A' <= c <= 'F' {
        Some(((c as int) - 55) as nat)
    } else {
        None
    }
}

/// Two hex digits (either case) read as a byte, high digit first.
pub open spec fn hex_byte(a: char, b: char) -> Option<u8> {
    match (hex_val(a), hex_val(b)) {
        (Some(x), Some(y)) => Some((x * 16 + y) as u8),
        _ => None,
    }
}

/// A literal color: `#` followed by exactly six ASCII hex digits,
/// read as `#rrggbb`; anything else is no color.
pub open spec fn parse_hex_spec(s: Seq<char>) -> Option<ThemeColor> {
    if s.len() == 7 && s[0] == '#' {
        match (hex_byte(s[1], s[2]), hex_byte(s[3], s[4]), hex_byte(s[5], s[6])) {
            (Some(r), Some(g), Some(b)) => Some(ThemeColor { r, g, b }),
            _ => None,
        }
    } else {
        None
    }
}

/// Each color name at most once, in increasing order.
pub open spec fn theme_wf(t: Theme) -> bool {
    strictly_sorted(color_names(t.colors@))
}

/// What `resolve_color` answers.
pub open spec fn resolve_color_spec(t: Theme, name: Seq<char>) -> Option<ThemeColor> {
    match named_color(t.colors@, name) {
        Some(c) => Some(c),
        None => parse_hex_spec(name),
    }
}

fn hex_value(c: char) -> (r: Option<u8>)
    ensures
        match r {
            Some(v) => hex_val(c) == Some(v as nat),
            None => hex_val(c) is None,
        },
{
    if '0' <= c && c <= '9' {
        Some((c as u8) - 48)
    } else if 'a' <= c && c <= 'f' {
        Some((c as u8) - 87)
    } else if 'A' <= c && c <= 'F' {
        Some((c as u8) - 55)
    } else {
        None
    }
}

fn hex_byte_of(a: char, b: char) -> (r: Option<u8>)
    ensures
        r == hex_byte(a, b),
{
    match (hex_value(a), hex_value(b)) {
        (Some(x), Some(y)) => Some(x * 16 + y),
        _ => None,
    }
}

/// Reads a literal `#rrggbb` color.
pub(crate) fn parse_hex(s: &str) -> (r: Option<ThemeColor>)
    ensures
        r == parse_hex_spec(s@),
{
    let cs = chars_of(s);
    if cs.len() != 7 || cs[0] != '#' {
        return None;
    }
    let r = hex_byte_of(cs[1], cs[2]);
    let g = hex_byte_of(cs[3], cs[4]);
    let b = hex_byte_of(cs[5], cs[6]);
    match (r, g, b) {
        (Some(r), Some(g), Some(b)) => Some(ThemeColor::rgb(r, g, b)),
        _ => None,
    }
}

impl Theme {
    /// The built-in theme: eight named colors and the default fonts.
    pub fn default() -> (t: Self)
        ensures
            t.name@ == "default"@,
            theme_wf(t),
            named_color(t.colors@, "primary"@) == Some(ThemeColor { r: 0x1f, g: 0x6f, b: 0xeb }),
            named_color(t.colors@, "text"@) == Some(ThemeColor { r: 0x14, g: 0x18, b: 0x1f }),
            named_color(t.colors@, "muted"@) == Some(ThemeColor { r: 0x6e, g: 0x77, b: 0x81 }),
            named_color(t.colors@, "background"@) == Some(
                ThemeColor { r: 0xff, g: 0xff, b: 0xff },
            ),
            named_color(t.colors@, "rule"@) == Some(ThemeColor { r: 0xd0, g: 0xd7, b: 0xde }),
            named_color(t.colors@, "red"@) == Some(ThemeColor { r: 0xcf, g: 0x22, b: 0x2e }),
            named_color(t.colors@, "yellow"@) == Some(ThemeColor { r: 0xff, g: 0xd3, b: 0x3d }),
            named_color(t.colors@, "gray"@) == Some(ThemeColor { r: 0xf6, g: 0xf8, b: 0xfa }),
            color_names(t.colors@) == seq![
                "background"@,
                "gray"@,
                "muted"@,
                "primary"@,
                "red"@,
                "rule"@,
                "text"@,
                "yellow"@,
            ],
    {
        let mut colors: Vec<(String, ThemeColor)> = Vec::new();
        colors.push((to_owned_string("background"), ThemeColor::rgb(0xff, 0xff, 0xff)));
        colors.push((to_owned_string("gray"), ThemeColor::rgb(0xf6, 0xf8, 0xfa)));
        colors.push((to_owned_string("muted"), ThemeColor::rgb(0x6e, 0x77, 0x81)));
        colors.push((to_owned_string("primary"), ThemeColor::rgb(0x1f, 0x6f, 0xeb)));
        colors.push((to_owned_string("red"), ThemeColor::rgb(0xcf, 0x22, 0x2e)));
        colors.push((to_owned_string("rule"), ThemeColor::rgb(0xd0, 0xd7, 0xde)));
        colors.push((to_owned_string("text"), ThemeColor::rgb(0x14, 0x18, 0x1f)));
        colors.push((to_owned_string("yellow"), ThemeColor::rgb(0xff, 0xd3, 0x3d)));
        let t = Self { name: to_owned_string("default"), colors, fonts: ThemeFonts::default() };
        proof {
            let names = color_names(t.colors@);
            assert(names =~= seq![
                "background"@,
                "gray"@,
                "muted"@,
                "primary"@,
                "red"@,
                "rule"@,
                "text"@,
                "yellow"@,
            ]);
            reveal_strlit("background");
            reveal_strlit("gray");
            reveal_strlit("muted");
            reveal_strlit("primary");
            reveal_strlit("red");
            reveal_strlit("rule");
            reveal_strlit("text");
            reveal_strlit("yellow");
            assert forall|i: int, j: int| 0 <= i < j < 8 implies names[i] != names[j] by {
                if names[i] == names[j] {
                    assert(names[i].len() == names[j].len());
                    assert(names[i][0] == names[j][0]);
                    assert(names[i][1] == names[j][1]);
                }
            }
            lemma_first_match_is(names, "background"@, 0);
            lemma_first_match_is(names, "gray"@, 1);
            lemma_first_match_is(names, "muted"@, 2);
            lemma_first_match_is(names, "primary"@, 3);
            lemma_first_match_is(names, "red"@, 4);
            lemma_first_match_is(names, "rule"@, 5);
            lemma_first_match_is(names, "text"@, 6);
            lemma_first_match_is(names, "yellow"@, 7);
            reveal_with_fuel(seq_lt, 2);
            assert(seq_lt(names[0], names[1]));
            assert(seq_lt(names[1], names[2]));
            assert(seq_lt(names[2], names[3]));
            assert(seq_lt(names[3], names[4]));
            assert(names[4].skip(1)[0] == 'e' && names[5].skip(1)[0] == 'u');
            assert(seq_lt(names[4], names[5]));
            assert(seq_lt(names[5], names[6]));
            assert(seq_lt(names[6], names[7]));
            assert forall|k: int| 0 <= k < names.len() - 1 implies seq_lt(#[trigger] names[k], names[k + 1]) by {
                if k == 0 {
                } else if k == 1 {
                } else if k == 2 {
                } else if k == 3 {
                } else if k == 4 {
                } else if k == 5 {
                } else {
                }
            }
            lemma_sorted_from_neighbours(names);
        }
        t
    }

    /// Resolve a color name, falling back to literal hex (`#rrggbb`) if the
    /// name isn't registered.
    pub fn resolve_color(&self, name: &str) -> (r: Option<ThemeColor>)
        ensures
            r == resolve_color_spec(*self, name@),
    {
        let mut i: usize = 0;
        while i < self.colors.len()
            invariant
                i <= self.colors@.len(),
                forall|j: int| 0 <= j < i ==> color_names(self.colors@)[j] != name@,
            decreases self.colors@.len() - i,
        {
            if str_eq(self.colors[i].0.as_str(), name) {
                proof {
                    lemma_first_match_is(color_names(self.colors@), name@, i as int);
                }
                return Some(self.colors[i].1);
            }
            i = i + 1;
        }
        proof {
            lemma_first_match(color_names(self.colors@), name@);
            match first_match(color_names(self.colors@), name@) {
                Some(k) => {
                    assert(color_names(self.colors@)[k] != name@);
                },
                None => {},
            }
        }
        parse_hex(name)
    }
}

/// A color's own hex spelling reads back as the same color.
pub proof fn lemma_hex_round_trip(c: ThemeColor)
    ensures
        parse_hex_spec(color_hex(c)) == Some(c),
{
    let s = color_hex(c);
    assert(s.len() == 7);
    assert forall|v: u8| #[trigger] hex_byte(hex2(v)[0], hex2(v)[1]) == Some(v) by {
        let hi = (v / 16) as nat;
        let lo = (v % 16) as nat;
        assert(hex2(v)[0] == hex_lower(hi));
        assert(hex2(v)[1] == hex_lower(lo));
        assert(hex_val(hex_lower(hi)) == Some(hi));
        assert(hex_val(hex_lower(lo)) == Some(lo));
        assert(hi * 16 + lo == v);
    }
    assert(s[1] == hex2(c.r)[0] && s[2] == hex2(c.r)[1]);
    assert(s[3] == hex2(c.g)[0] && s[4] == hex2(c.g)[1]);
    assert(s[5] == hex2(c.b)[0] && s[6] == hex2(c.b)[1]);
    assert(hex_byte(s[1], s[2]) == Some(c.r));
    assert(hex_byte(s[3], s[4]) == Some(c.g));
    assert(hex_byte(s[5], s[6]) == Some(c.b));
}

} // verus!
