//! HTML exporter.
//!
//! Walks a document and produces HTML: a `<div data-stem="name">` per
//! block around its text or its child blocks, a tagged `<span>` per
//! inline element, escaped text, and, for a full document, the page
//! head with the theme's stylesheet.

use vstd::prelude::*;

use crate::ast_v2::{lookup_str, Block, Body, Document, TextPiece};
use crate::text::{
    chars_of, dec, is_digit, parse_u32, parse_unsigned, push_char, push_str, str_eq,
    to_owned_string, upper_char, views_of,
};
use crate::theme::{color_hex, resolve_color_spec, Theme, ThemeColor};

verus! {

pub struct HtmlExporter {
    pub full_document: bool,
}

impl HtmlExporter {
    /// A full HTML page.
    pub fn new() -> (e: Self)
        ensures
            e.full_document,
    {
        Self { full_document: true }
    }

    /// Only the `<div class="stem-doc">` fragment.
    pub fn fragment() -> (e: Self)
        ensures
            !e.full_document,
    {
        Self { full_document: false }
    }
}

/// What export can fail with: writing the output.
pub enum HtmlError {
    Write(String),
}

// ------------------------------------------------------------------
// Escaping
// ------------------------------------------------------------------

pub open spec fn esc_text_char(c: char) -> Seq<char> {
    if c == '&' {
        "&amp;"@
    } else if c == '<' {
        "&lt;"@
    } else if c == '>' {
        "&gt;"@
    } else {
        seq![c]
    }
}

/// Text content escaped: `&`, `<`, `>`.
pub open spec fn esc_text(s: Seq<char>) -> Seq<char>
    decreases s.len(),
{
    if s.len() == 0 {
        Seq::empty()
    } else {
        esc_text(s.drop_last()) + esc_text_char(s.last())
    }
}

pub open spec fn esc_attr_char(c: char) -> Seq<char> {
    if c == '"' {
        "&quot;"@
    } else {
        esc_text_char(c)
    }
}

/// An attribute value escaped: `&`, `<`, `>`, `"`.
pub open spec fn esc_attr(s: Seq<char>) -> Seq<char>
    decreases s.len(),
{
    if s.len() == 0 {
        Seq::empty()
    } else {
        esc_attr(s.drop_last()) + esc_attr_char(s.last())
    }
}

/// Escaped HTML text never contains `<` or `>`, and text that holds none
/// of `&`, `<`, `>` is written unchanged.
pub proof fn lemma_html_text_safe(s: Seq<char>)
    ensures
        forall|i: int| 0 <= i < esc_text(s).len() ==> esc_text(s)[i] != '<' && esc_text(s)[i] != '>',
        (forall|i: int| 0 <= i < s.len() ==> s[i] != '&' && s[i] != '<' && s[i] != '>') ==> esc_text(
            s,
        ) == s,
    decreases s.len(),
{
    reveal_strlit("&amp;");
    reveal_strlit("&lt;");
    reveal_strlit("&gt;");
    if s.len() > 0 {
        lemma_html_text_safe(s.drop_last());
        let a = esc_text(s.drop_last());
        let b = esc_text_char(s.last());
        assert forall|i: int| 0 <= i < (a + b).len() implies (a + b)[i] != '<' && (a + b)[i]
            != '>' by {
            if i >= a.len() {
                assert((a + b)[i] == b[i - a.len()]);
            }
        }
        if forall|i: int| 0 <= i < s.len() ==> s[i] != '&' && s[i] != '<' && s[i] != '>' {
            assert(forall|i: int|
                0 <= i < s.drop_last().len() ==> s.drop_last()[i] == s[i]);
            assert(s.drop_last().push(s.last()) =~= s);
        }
    } else {
        assert(s =~= Seq::<char>::empty());
    }
}

/// An escaped HTML attribute value never contains `"`, `<` or `>`, so it
/// cannot end its attribute or its tag early.
pub proof fn lemma_html_attr_safe(s: Seq<char>)
    ensures
        forall|i: int|
            0 <= i < esc_attr(s).len() ==> esc_attr(s)[i] != '"' && esc_attr(s)[i] != '<'
                && esc_attr(s)[i] != '>',
    decreases s.len(),
{
    reveal_strlit("&amp;");
    reveal_strlit("&lt;");
    reveal_strlit("&gt;");
    reveal_strlit("&quot;");
    if s.len() > 0 {
        lemma_html_attr_safe(s.drop_last());
        let a = esc_attr(s.drop_last());
        let b = esc_attr_char(s.last());
        assert forall|i: int| 0 <= i < (a + b).len() implies (a + b)[i] != '"' && (a + b)[i]
            != '<' && (a + b)[i] != '>' by {
            if i >= a.len() {
                assert((a + b)[i] == b[i - a.len()]);
            }
        }
    }
}

pub fn html_text(s: &str) -> (r: String)
    ensures
        r@ == esc_text(s@),
{
    let cs = chars_of(s);
    let mut out = String::new();
    let mut i: usize = 0;
    proof {
        reveal_strlit("&amp;");
        reveal_strlit("&lt;");
        reveal_strlit("&gt;");
    }
    while i < cs.len()
        invariant
            i <= cs@.len(),
            cs@ == s@,
            out@ == esc_text(s@.take(i as int)),
        decreases cs@.len() - i,
    {
        let ch = cs[i];
        if ch == '&' {
            push_str(&mut out, "&amp;");
        } else if ch == '<' {
            push_str(&mut out, "&lt;");
        } else if ch == '>' {
            push_str(&mut out, "&gt;");
        } else {
            push_char(&mut out, ch);
        }
        proof {
            assert(s@.take(i + 1).drop_last() =~= s@.take(i as int));
        }
        i = i + 1;
    }
    proof {
        assert(s@.take(i as int) =~= s@);
    }
    out
}

pub fn html_attr(s: &str) -> (r: String)
    ensures
        r@ == esc_attr(s@),
{
    let cs = chars_of(s);
    let mut out = String::new();
    let mut i: usize = 0;
    proof {
        reveal_strlit("&amp;");
        reveal_strlit("&lt;");
        reveal_strlit("&gt;");
        reveal_strlit("&quot;");
    }
    while i < cs.len()
        invariant
            i <= cs@.len(),
            cs@ == s@,
            out@ == esc_attr(s@.take(i as int)),
        decreases cs@.len() - i,
    {
        let ch = cs[i];
        if ch == '&' {
            push_str(&mut out, "&amp;");
        } else if ch == '<' {
            push_str(&mut out, "&lt;");
        } else if ch == '>' {
            push_str(&mut out, "&gt;");
        } else if ch == '"' {
            push_str(&mut out, "&quot;");
        } else {
            push_char(&mut out, ch);
        }
        proof {
            assert(s@.take(i + 1).drop_last() =~= s@.take(i as int));
        }
        i = i + 1;
    }
    proof {
        assert(s@.take(i as int) =~= s@);
    }
    out
}

// ------------------------------------------------------------------
// Cell addresses
// ------------------------------------------------------------------

pub open spec fn is_ascii_alpha(c: char) -> bool {
    ('a' <= c <= 'z') || ('A' <= c <= 'Z')
}

/// The column a run of letters names, in bijective base 26 (`A` = 1,
/// `Z` = 26, `AA` = 27), case-insensitively; `None` when a character is
/// not an ASCII letter.
pub open spec fn letters_value(col: Seq<char>) -> Option<nat>
    decreases col.len(),
{
    if col.len() == 0 {
        Some(0)
    } else {
        match letters_value(col.drop_last()) {
            Some(n) => if is_ascii_alpha(col.last()) {
                Some(n * 26 + ((upper_char(col.last()) as nat) - ('A' as nat) + 1) as nat)
            } else {
                None
            },
            None => None,
        }
    }
}

/// The index of the first ASCII digit.
pub open spec fn first_digit(s: Seq<char>) -> Option<nat>
    decreases s.len(),
{
    if s.len() == 0 {
        None
    } else {
        match first_digit(s.drop_last()) {
            Some(i) => Some(i),
            None => if is_digit(s.last()) {
                Some((s.len() - 1) as nat)
            } else {
                None
            },
        }
    }
}

/// A spreadsheet cell address like `B12`: letters for the column, then
/// a row number from 1; both 0-based in the result. `None` for anything
/// else, or a column or row past `u32::MAX`.
pub open spec fn cell_address_of(s: Seq<char>) -> Option<(u32, u32)> {
    match first_digit(s) {
        None => None,
        Some(split) => if split == 0 {
            None
        } else {
            let col = s.take(split as int);
            let row = s.skip(split as int);
            match letters_value(col) {
                Some(n) => if n == 0 || n > u32::MAX {
                    None
                } else {
                    match parse_unsigned(row, u32::MAX as nat) {
                        Some(r) => if r == 0 {
                            None
                        } else {
                            Some(((n - 1) as u32, (r - 1) as u32))
                        },
                        None => None,
                    }
                },
                None => None,
            }
        },
    }
}

pub open spec fn value_le(o: Option<nat>, n: nat) -> bool {
    match o {
        Some(m) => m <= n,
        None => false,
    }
}

proof fn lemma_letters_grow(col: Seq<char>)
    ensures
        letters_value(col) matches Some(n) ==> n >= col.len(),
        letters_value(col) matches Some(n) ==> forall|k: int|
            0 <= k <= col.len() ==> value_le(#[trigger] letters_value(col.take(k)), n),
    decreases col.len(),
{
    if col.len() > 0 {
        lemma_letters_grow(col.drop_last());
        if let Some(n) = letters_value(col) {
            assert forall|k: int| 0 <= k <= col.len() implies value_le(#[trigger] letters_value(col.take(k)), n) by {
                if k == col.len() {
                    assert(col.take(k) =~= col);
                } else {
                    assert(col.drop_last().take(k) =~= col.take(k));
                }
            }
        }
    } else {
        assert forall|k: int| 0 <= k <= col.len() implies value_le(#[trigger] letters_value(col.take(k)), 0) by {
            assert(col.take(k) =~= col);
        }
    }
}

fn find_first_digit(cs: &Vec<char>) -> (r: Option<usize>)
    ensures
        match r {
            Some(i) => first_digit(cs@) == Some(i as nat),
            None => first_digit(cs@) is None,
        },
{
    let mut i: usize = 0;
    while i < cs.len()
        invariant
            i <= cs@.len(),
            first_digit(cs@.take(i as int)) is None,
        decreases cs@.len() - i,
    {
        proof {
            assert(cs@.take(i + 1).drop_last() =~= cs@.take(i as int));
        }
        if '0' <= cs[i] && cs[i] <= '9' {
            proof {
                lemma_first_digit_prefix(cs@, i as int + 1);
            }
            return Some(i);
        }
        i = i + 1;
    }
    proof {
        assert(cs@.take(i as int) =~= cs@);
    }
    None
}

proof fn lemma_first_digit_bound(s: Seq<char>)
    ensures
        first_digit(s) matches Some(i) ==> i < s.len(),
    decreases s.len(),
{
    if s.len() > 0 {
        lemma_first_digit_bound(s.drop_last());
    }
}

/// A prefix with a digit fixes where the first digit is.
proof fn lemma_first_digit_prefix(s: Seq<char>, k: int)
    requires
        0 <= k <= s.len(),
        first_digit(s.take(k)) is Some,
    ensures
        first_digit(s) == first_digit(s.take(k)),
    decreases s.len() - k,
{
    if k < s.len() {
        assert(s.take(k + 1).drop_last() =~= s.take(k));
        lemma_first_digit_prefix(s, k + 1);
    } else {
        assert(s.take(k) =~= s);
    }
}

/// Parse a spreadsheet cell address to `(column, row)`, both 0-based.
pub fn parse_cell_address(s: &str) -> (r: Option<(u32, u32)>)
    ensures
        r == cell_address_of(s@),
{
    let cs = chars_of(s);
    if cs.len() == 0 {
        return None;
    }
    let split = match find_first_digit(&cs) {
        Some(i) => i,
        None => return None,
    };
    if split == 0 {
        return None;
    }
    proof {
        lemma_first_digit_bound(cs@);
    }
    let ghost col = s@.take(split as int);
    proof {
        lemma_letters_grow(col);
    }
    let mut n: u32 = 0;
    let mut i: usize = 0;
    while i < split
        invariant
            0 < split <= cs@.len(),
            i <= split,
            cs@ == s@,
            first_digit(s@) == Some(split as nat),
            col == s@.take(split as int),
            letters_value(col.take(i as int)) == Some(n as nat),
            letters_value(col) matches Some(v) ==> forall|k: int|
                0 <= k <= col.len() ==> value_le(#[trigger] letters_value(col.take(k)), v),
        decreases split - i,
    {
        proof {
            assert(col.take(i + 1).drop_last() =~= col.take(i as int));
            assert(col.take(i + 1).last() == cs@[i as int]);
        }
        let c = cs[i];
        if !(('a' <= c && c <= 'z') || ('A' <= c && c <= 'Z')) {
            proof {
                assert(!is_ascii_alpha(col.take(i + 1).last()));
                assert(letters_value(col.take(i + 1)) is None);
                lemma_letters_none_extends(col, i as int + 1);
            }
            return None;
        }
        let u = if 'a' <= c && c <= 'z' {
            ((c as u32) - 32) as u32
        } else {
            c as u32
        };
        let d: u32 = u - 64;
        let ghost next = n as nat * 26 + d as nat;
        proof {
            assert((upper_char(c) as nat) == u as nat);
            assert(letters_value(col.take(i + 1)) == Some(next));
        }
        let m = match n.checked_mul(26) {
            Some(m) => m,
            None => {
                proof {
                    assert(n as nat * 26 > u32::MAX);
                    lemma_letters_too_big(col, i as int + 1);
                }
                return None;
            },
        };
        n = match m.checked_add(d) {
            Some(v) => v,
            None => {
                proof {
                    lemma_letters_too_big(col, i as int + 1);
                }
                return None;
            },
        };
        i = i + 1;
    }
    proof {
        assert(col.take(i as int) =~= col);
    }
    if n == 0 {
        return None;
    }
    let row = crate::text::string_of_range(&cs, split, cs.len());
    proof {
        assert(row@ =~= s@.skip(split as int));
    }
    let row_n = match parse_u32(row.as_str()) {
        Some(v) => v,
        None => return None,
    };
    if row_n == 0 {
        return None;
    }
    Some((n - 1, row_n - 1))
}

/// A non-letter in a prefix makes the whole column invalid.
proof fn lemma_letters_none_extends(col: Seq<char>, k: int)
    requires
        0 <= k <= col.len(),
        letters_value(col.take(k)) is None,
    ensures
        letters_value(col) is None,
    decreases col.len() - k,
{
    if k < col.len() {
        assert(col.take(k + 1).drop_last() =~= col.take(k));
        lemma_letters_none_extends(col, k + 1);
    } else {
        assert(col.take(k) =~= col);
    }
}

/// A prefix past `u32::MAX` puts the whole column past it, or makes it
/// invalid.
proof fn lemma_letters_too_big(col: Seq<char>, k: int)
    requires
        0 <= k <= col.len(),
        letters_value(col.take(k)) matches Some(v) && v > u32::MAX,
    ensures
        letters_value(col) matches Some(v) ==> v > u32::MAX,
{
    lemma_letters_grow(col);
}

/// The letters of column number `m` (from 1) in bijective base 26.
pub open spec fn col_letters(m: nat) -> Seq<char>
    decreases m,
{
    if m == 0 {
        Seq::empty()
    } else {
        col_letters(((m - 1) / 26) as nat).push((((m - 1) % 26) + ('A' as nat)) as char)
    }
}

/// The letters of 0-based column `n`; the `n + 1` wraps at `u32::MAX`
/// as a release build computes it, giving no letters.
pub open spec fn col_letter_of(n: u32) -> Seq<char> {
    if n == u32::MAX {
        Seq::empty()
    } else {
        col_letters((n + 1) as nat)
    }
}

pub fn format_col_letter(n: u32) -> (s: String)
    ensures
        s@ == col_letter_of(n),
{
    let mut m = n.wrapping_add(1);
    // Digits come out least significant first; collect, then reverse.
    let mut rev: Vec<char> = Vec::new();
    let ghost m0 = m as nat;
    proof {
        assert(m == if n == u32::MAX { 0u32 } else { (n + 1) as u32 });
    }
    while m > 0
        invariant
            col_letters(m0) == col_letters(m as nat) + rev@.reverse(),
        decreases m,
    {
        let r = (m - 1) % 26;
        let c = ((65 + r) as u8) as char;
        let ghost before = rev@;
        rev.push(c);
        proof {
            assert(c as nat == (((m - 1) % 26) + ('A' as nat)));
            assert(rev@.reverse() =~= seq![c] + before.reverse());
        }
        m = (m - 1) / 26;
    }
    let mut s = String::new();
    let mut i: usize = rev.len();
    proof {
        assert(col_letters(0) =~= Seq::<char>::empty());
    }
    while i > 0
        invariant
            i <= rev@.len(),
            s@ == rev@.reverse().take((rev@.len() - i) as int),
        decreases i,
    {
        i = i - 1;
        push_char(&mut s, rev[i]);
        proof {
            assert(rev@.reverse().take((rev@.len() - i) as int) =~= rev@.reverse().take(
                (rev@.len() - i - 1) as int,
            ).push(rev@[i as int]));
        }
    }
    proof {
        assert(rev@.reverse().take(rev@.len() as int) =~= rev@.reverse());
    }
    s
}

/// Column letters are upper-case ASCII letters, at least one for a
/// column from 1, and read back as their column.
proof fn lemma_col_letters(m: nat)
    ensures
        m >= 1 ==> col_letters(m).len() >= 1,
        forall|i: int| 0 <= i < col_letters(m).len() ==> 'A' <= #[trigger] col_letters(m)[i] <= 'Z',
        letters_value(col_letters(m)) == Some(m),
    decreases m,
{
    if m > 0 {
        let q = ((m - 1) / 26) as nat;
        let r = (m - 1) % 26;
        let c = ((r + ('A' as nat)) as char);
        lemma_col_letters(q);
        let l = col_letters(m);
        assert(l.drop_last() =~= col_letters(q));
        assert(l.last() == c);
        assert(c as nat == r + 65);
        assert(upper_char(c) == c);
        assert(q * 26 + r + 1 == m);
        assert forall|i: int| 0 <= i < l.len() implies 'A' <= #[trigger] l[i] <= 'Z' by {
            if i < l.len() - 1 {
                assert(l[i] == col_letters(q)[i]);
            }
        }
    } else {
        assert(letters_value(col_letters(0)) == Some(0nat));
    }
}

/// Letters then digits: the first digit is where the digits start.
proof fn lemma_first_digit_after_letters(l: Seq<char>, d: Seq<char>)
    requires
        forall|i: int| 0 <= i < l.len() ==> 'A' <= #[trigger] l[i] <= 'Z',
        d.len() >= 1,
        crate::text::all_digits(d),
    ensures
        first_digit(l + d) == Some(l.len()),
    decreases d.len(),
{
    if d.len() == 1 {
        lemma_no_digit_in_letters(l);
        assert((l + d).drop_last() =~= l);
        assert(is_digit(d[0]));
    } else {
        lemma_first_digit_after_letters(l, d.drop_last());
        assert((l + d).drop_last() =~= l + d.drop_last());
    }
}

proof fn lemma_no_digit_in_letters(l: Seq<char>)
    requires
        forall|i: int| 0 <= i < l.len() ==> 'A' <= #[trigger] l[i] <= 'Z',
    ensures
        first_digit(l) is None,
    decreases l.len(),
{
    if l.len() > 0 {
        lemma_no_digit_in_letters(l.drop_last());
        assert(l.last() == l[l.len() - 1]);
    }
}

/// Formatting a column and appending a row number from 1 gives an
/// address that parses back to that column and row.
pub proof fn lemma_cell_address_round_trip(col: u32, row: u32)
    requires
        col < u32::MAX,
        row < u32::MAX,
    ensures
        cell_address_of(col_letter_of(col) + dec((row + 1) as nat)) == Some((col, row)),
{
    let l = col_letter_of(col);
    let d = dec((row + 1) as nat);
    lemma_col_letters((col + 1) as nat);
    crate::text::lemma_dec_digits((row + 1) as nat);
    lemma_first_digit_after_letters(l, d);
    let s = l + d;
    assert(s.take(l.len() as int) =~= l);
    assert(s.skip(l.len() as int) =~= d);
    assert(is_digit(d[0]));
    assert(crate::text::unsigned_digits(d) == d);
}

// ------------------------------------------------------------------
// Rendering
// ------------------------------------------------------------------

/// `<span data-stem="name">text</span>` for an inline element: its
/// literal text, tagged with its name.
pub open spec fn literal_text(pieces: Seq<TextPiece>) -> Seq<char>
    decreases pieces.len(),
{
    if pieces.len() == 0 {
        Seq::empty()
    } else {
        literal_text(pieces.drop_last()) + match pieces.last() {
            TextPiece::Literal { text, .. } => text@,
            TextPiece::Inline(_) => Seq::empty(),
        }
    }
}

pub open spec fn inline_html(b: Block) -> Seq<char> {
    let text = match b.body {
        Body::Text(pieces) => literal_text(pieces@),
        _ => Seq::empty(),
    };
    "<span data-stem=\""@ + esc_attr(b.name@) + "\">"@ + esc_text(text) + "</span>"@
}

/// The HTML of the first `k` pieces of a text body.
pub open spec fn pieces_html(pieces: Seq<TextPiece>, k: nat) -> Seq<char>
    decreases k,
{
    if k == 0 || k > pieces.len() {
        Seq::empty()
    } else {
        pieces_html(pieces, (k - 1) as nat) + match pieces[k - 1] {
            TextPiece::Literal { text, .. } => esc_text(text@),
            TextPiece::Inline(b) => inline_html(b),
        }
    }
}

/// A block: a `div` tagged with its name around its text or its child
/// blocks.
pub open spec fn block_html(b: Block) -> Seq<char>
    decreases b, 1nat, 0nat,
{
    "<div data-stem=\""@ + esc_attr(b.name@) + "\">\n"@ + match b.body {
        Body::Empty => Seq::empty(),
        Body::Text(pieces) => pieces_html(pieces@, pieces@.len()),
        Body::Children(kids) => kids_html(b, kids@.len()),
    } + "</div>\n"@
}

/// The first `k` children of `b`.
pub open spec fn kids_html(b: Block, k: nat) -> Seq<char>
    decreases b, 0nat, k,
{
    match b.body {
        Body::Children(kids) => {
            if k == 0 || k > kids@.len() {
                Seq::empty()
            } else {
                proof {
                    assert(decreases_to!(b => b.body));
                    assert(decreases_to!(b.body => kids));
                    assert(decreases_to!(kids => kids@));
                    assert(decreases_to!(kids@ => kids@[k - 1]));
                }
                kids_html(b, (k - 1) as nat) + block_html(kids@[k - 1])
            }
        },
        _ => Seq::empty(),
    }
}

/// The literal text pieces of a block's text body, in order.
pub trait BodyTextPieces {
    fn body_text_pieces(&self) -> (r: Vec<String>);
}

pub open spec fn literal_pieces(pieces: Seq<TextPiece>) -> Seq<Seq<char>>
    decreases pieces.len(),
{
    if pieces.len() == 0 {
        Seq::empty()
    } else {
        literal_pieces(pieces.drop_last()) + match pieces.last() {
            TextPiece::Literal { text, .. } => seq![text@],
            TextPiece::Inline(_) => Seq::empty(),
        }
    }
}

impl BodyTextPieces for Block {
    fn body_text_pieces(&self) -> (r: Vec<String>)
        ensures
            views_of(r@) == match self.body {
                Body::Text(pieces) => literal_pieces(pieces@),
                _ => Seq::empty(),
            },
    {
        let mut out: Vec<String> = Vec::new();
        if let Body::Text(pieces) = &self.body {
            let mut i: usize = 0;
            proof {
                assert(views_of(out@) =~= literal_pieces(pieces@.take(0)));
            }
            while i < pieces.len()
                invariant
                    i <= pieces@.len(),
                    views_of(out@) == literal_pieces(pieces@.take(i as int)),
                decreases pieces@.len() - i,
            {
                proof {
                    assert(pieces@.take(i + 1).drop_last() =~= pieces@.take(i as int));
                    assert(pieces@.take(i + 1).last() == pieces@[i as int]);
                }
                let ghost before = out@;
                if let TextPiece::Literal { text, .. } = &pieces[i] {
                    out.push(to_owned_string(text.as_str()));
                    proof {
                        assert(views_of(out@) =~= views_of(before) + seq![text@]);
                    }
                } else {
                    proof {
                        assert(views_of(out@) =~= views_of(before) + Seq::<Seq<char>>::empty());
                    }
                }
                i = i + 1;
            }
            proof {
                assert(pieces@.take(i as int) =~= pieces@);
            }
        } else {
            proof {
                assert(views_of(out@) =~= Seq::<Seq<char>>::empty());
            }
        }
        out
    }
}

/// The literal text of an inline element's body.
fn inline_text(b: &Block) -> (r: String)
    ensures
        r@ == match b.body {
            Body::Text(pieces) => literal_text(pieces@),
            _ => Seq::empty(),
        },
{
    let mut text = String::new();
    if let Body::Text(pieces) = &b.body {
        let mut i: usize = 0;
        while i < pieces.len()
            invariant
                i <= pieces@.len(),
                b.body == Body::Text(*pieces),
                text@ == literal_text(pieces@.take(i as int)),
            decreases pieces@.len() - i,
        {
            proof {
                assert(pieces@.take(i + 1).drop_last() =~= pieces@.take(i as int));
            }
            if let TextPiece::Literal { text: t, .. } = &pieces[i] {
                push_str(&mut text, t.as_str());
            }
            i = i + 1;
        }
        proof {
            assert(pieces@.take(i as int) =~= pieces@);
        }
    }
    text
}

fn render_inline(out: &mut String, b: &Block)
    ensures
        final(out)@ == old(out)@ + inline_html(*b),
{
    let text = inline_text(b);
    push_str(out, "<span data-stem=\"");
    push_str(out, html_attr(b.name.as_str()).as_str());
    push_str(out, "\">");
    push_str(out, html_text(text.as_str()).as_str());
    push_str(out, "</span>");
}

pub(crate) fn render_text_body_inline(out: &mut String, b: &Block)
    ensures
        final(out)@ == old(out)@ + match b.body {
            Body::Text(pieces) => pieces_html(pieces@, pieces@.len()),
            _ => Seq::empty(),
        },
{
    if let Body::Text(pieces) = &b.body {
        let ghost o0 = out@;
        let mut i: usize = 0;
        while i < pieces.len()
            invariant
                i <= pieces@.len(),
                out@ == o0 + pieces_html(pieces@, i as nat),
            decreases pieces@.len() - i,
        {
            match &pieces[i] {
                TextPiece::Literal { text, .. } => {
                    push_str(out, html_text(text.as_str()).as_str());
                },
                TextPiece::Inline(inline) => {
                    render_inline(out, inline);
                },
            }
            i = i + 1;
        }
    }
}

pub(crate) fn render_children_of(out: &mut String, b: &Block)
    ensures
        final(out)@ == old(out)@ + match b.body {
            Body::Children(kids) => kids_html(*b, kids@.len()),
            _ => Seq::empty(),
        },
    decreases b, 0nat,
{
    if let Body::Children(kids) = &b.body {
        let ghost o0 = out@;
        let mut i: usize = 0;
        while i < kids.len()
            invariant
                i <= kids@.len(),
                b.body == Body::Children(*kids),
                out@ == o0 + kids_html(*b, i as nat),
            decreases kids@.len() - i,
        {
            proof {
                assert(decreases_to!(*b => b.body));
                assert(decreases_to!(b.body => *kids));
                assert(decreases_to!(*kids => kids@));
                assert(decreases_to!(kids@ => kids@[i as int]));
            }
            render_block(out, &kids[i]);
            i = i + 1;
        }
    }
}

fn render_fallback_block(out: &mut String, b: &Block)
    ensures
        final(out)@ == old(out)@ + block_html(*b),
    decreases b, 1nat,
{
    push_str(out, "<div data-stem=\"");
    push_str(out, html_attr(b.name.as_str()).as_str());
    push_str(out, "\">\n");
    match &b.body {
        Body::Empty => {},
        Body::Text(_) => render_text_body_inline(out, b),
        Body::Children(_) => render_children_of(out, b),
    }
    push_str(out, "</div>\n");
}

/// Append the HTML of one block.
pub(crate) fn render_block(out: &mut String, b: &Block)
    ensures
        final(out)@ == old(out)@ + block_html(*b),
    decreases b, 2nat,
{
    render_fallback_block(out, b)
}

/// The CSS grid columns of a layout kind.
pub open spec fn grid_template_of(kind: Seq<char>) -> Seq<char> {
    if kind == "two-column"@ {
        "grid-template-columns:1fr 1fr;"@
    } else if kind == "three-column"@ {
        "grid-template-columns:1fr 1fr 1fr;"@
    } else if kind == "sidebar"@ {
        "grid-template-columns:1fr 2fr;"@
    } else {
        "grid-template-columns:1fr;"@
    }
}

pub fn grid_template_for(kind: &str) -> (r: &'static str)
    ensures
        r@ == grid_template_of(kind@),
{
    proof {
        reveal_strlit("two-column");
        reveal_strlit("three-column");
        reveal_strlit("sidebar");
    }
    if str_eq(kind, "two-column") {
        "grid-template-columns:1fr 1fr;"
    } else if str_eq(kind, "three-column") {
        "grid-template-columns:1fr 1fr 1fr;"
    } else if str_eq(kind, "sidebar") {
        "grid-template-columns:1fr 2fr;"
    } else {
        "grid-template-columns:1fr;"
    }
}


// ------------------------------------------------------------------
// The page
// ------------------------------------------------------------------

/// A theme color's hex text, or the fallback when the theme has none.
pub open spec fn color_or(c: Option<ThemeColor>, fallback: Seq<char>) -> Seq<char> {
    match c {
        Some(v) => color_hex(v),
        None => fallback,
    }
}

/// The page stylesheet: the theme's fonts and its `text`, `background`
/// and `rule` colors (with fallbacks) in a fixed set of rules.
pub open spec fn css_of(t: Theme) -> Seq<char> {
    let text = color_or(resolve_color_spec(t, "text"@), "#141820"@);
    let bg = color_or(resolve_color_spec(t, "background"@), "#ffffff"@);
    let rule = color_or(resolve_color_spec(t, "rule"@), "#d0d7de"@);
    "body{font-family:"@ + t.fonts.body@ + ";color:"@ + text + ";background:"@ + bg
        + ";max-width:42rem;margin:2rem auto;padding:0 1rem;line-height:1.55;}"@
        + "h1,h2,h3,h4,h5,h6{font-family:"@ + t.fonts.heading@ + ";}"@ + "table{width:100%;}"@
        + "th,td{border-color:"@ + rule + ";}"@ + "code{font-family:"@ + t.fonts.mono@
        + ";background:#f6f8fa;padding:0 0.25em;border-radius:3px;}"@ + "figure{margin:1rem 0;}"@
        + "figcaption{font-size:0.9em;color:#666;text-align:center;}"@
}

fn color_text(theme: &Theme, name: &str, fallback: &str) -> (r: String)
    ensures
        r@ == color_or(resolve_color_spec(*theme, name@), fallback@),
{
    match theme.resolve_color(name) {
        Some(c) => c.to_hex(),
        None => to_owned_string(fallback),
    }
}

fn base_css(theme: &Theme) -> (r: String)
    ensures
        r@ == css_of(*theme),
{
    proof {
        reveal_strlit("text");
        reveal_strlit("background");
        reveal_strlit("rule");
    }
    let text = color_text(theme, "text", "#141820");
    let bg = color_text(theme, "background", "#ffffff");
    let rule = color_text(theme, "rule", "#d0d7de");
    let mut out = String::new();
    push_str(&mut out, "body{font-family:");
    push_str(&mut out, theme.fonts.body.as_str());
    push_str(&mut out, ";color:");
    push_str(&mut out, text.as_str());
    push_str(&mut out, ";background:");
    push_str(&mut out, bg.as_str());
    push_str(&mut out, ";max-width:42rem;margin:2rem auto;padding:0 1rem;line-height:1.55;}");
    push_str(&mut out, "h1,h2,h3,h4,h5,h6{font-family:");
    push_str(&mut out, theme.fonts.heading.as_str());
    push_str(&mut out, ";}");
    push_str(&mut out, "table{width:100%;}");
    push_str(&mut out, "th,td{border-color:");
    push_str(&mut out, rule.as_str());
    push_str(&mut out, ";}");
    push_str(&mut out, "code{font-family:");
    push_str(&mut out, theme.fonts.mono.as_str());
    push_str(&mut out, ";background:#f6f8fa;padding:0 0.25em;border-radius:3px;}");
    push_str(&mut out, "figure{margin:1rem 0;}");
    push_str(&mut out, "figcaption{font-size:0.9em;color:#666;text-align:center;}");
    out
}

/// The first `k` blocks of a list.
pub open spec fn blocks_html(bs: Seq<Block>, k: nat) -> Seq<char>
    decreases k,
{
    if k == 0 || k > bs.len() {
        Seq::empty()
    } else {
        blocks_html(bs, (k - 1) as nat) + block_html(bs[k - 1])
    }
}

/// The page head: doctype, language, charset, the title when the
/// metadata has one, and the stylesheet.
pub open spec fn head_html(doc: Document, t: Theme) -> Seq<char> {
    let lang = match lookup_str(doc.metadata.properties@, "locale"@) {
        Some(l) => l,
        None => "en"@,
    };
    "<!doctype html>\n"@ + "<html lang=\""@ + esc_attr(lang) + "\">\n"@ + "<head>\n"@
        + "<meta charset=\"utf-8\">\n"@ + match lookup_str(doc.metadata.properties@, "title"@) {
        Some(title) => "<title>"@ + esc_text(title) + "</title>\n"@,
        None => Seq::empty(),
    } + "<style>"@ + css_of(t) + "</style>\n"@ + "</head>\n"@ + "<body>\n"@
}

/// The exported HTML: the blocks in a `stem-doc` div, wrapped in a full
/// page when asked for.
pub open spec fn document_html(full: bool, doc: Document, t: Theme) -> Seq<char> {
    (if full {
        head_html(doc, t)
    } else {
        Seq::empty()
    }) + "<div class=\"stem-doc\">\n"@ + blocks_html(doc.blocks@, doc.blocks@.len()) + "</div>\n"@ + if full {
        "</body>\n</html>\n"@
    } else {
        Seq::empty()
    }
}

fn render_head(out: &mut String, doc: &Document, theme: &Theme)
    ensures
        final(out)@ == old(out)@ + head_html(*doc, *theme),
{
    let lang = match doc.metadata.get_str("locale") {
        Some(l) => l,
        None => "en",
    };
    proof {
        reveal_strlit("en");
    }
    push_str(out, "<!doctype html>\n");
    push_str(out, "<html lang=\"");
    push_str(out, html_attr(lang).as_str());
    push_str(out, "\">\n");
    push_str(out, "<head>\n");
    push_str(out, "<meta charset=\"utf-8\">\n");
    if let Some(t) = doc.metadata.get_str("title") {
        push_str(out, "<title>");
        push_str(out, html_text(t).as_str());
        push_str(out, "</title>\n");
    }
    push_str(out, "<style>");
    push_str(out, base_css(theme).as_str());
    push_str(out, "</style>\n");
    push_str(out, "</head>\n");
    push_str(out, "<body>\n");
}

impl HtmlExporter {
    /// The HTML of a (cooked) document under a theme.
    pub fn render_document(&self, doc: &Document, theme: &Theme) -> (s: String)
        ensures
            s@ == document_html(self.full_document, *doc, *theme),
    {
        let mut out = String::new();
        if self.full_document {
            render_head(&mut out, doc, theme);
        }
        push_str(&mut out, "<div class=\"stem-doc\">\n");
        let ghost o0 = out@;
        let mut i: usize = 0;
        while i < doc.blocks.len()
            invariant
                i <= doc.blocks@.len(),
                out@ == o0 + blocks_html(doc.blocks@, i as nat),
            decreases doc.blocks@.len() - i,
        {
            render_block(&mut out, &doc.blocks[i]);
            i = i + 1;
        }
        push_str(&mut out, "</div>\n");
        if self.full_document {
            push_str(&mut out, "</body>\n");
            push_str(&mut out, "</html>\n");
        }
        proof {
            reveal_strlit("</body>\n");
            reveal_strlit("</html>\n");
            reveal_strlit("</body>\n</html>\n");
            assert(out@ =~= document_html(self.full_document, *doc, *theme));
        }
        out
    }
}
} // verus!
