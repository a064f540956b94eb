//! The document AST: one uniform `Block` type whose body is none, text
//! (a list of literal and inline pieces), or child blocks.
//!
//! Property values are either bare or quoted; both decode to a `String`,
//! with `Bare` vs `Quoted` preserved so a formatter can round-trip the
//! author's choice.

use vstd::prelude::*;

use crate::keys::{first_match, lemma_first_match, lemma_first_match_is};
use crate::span::Span;
use crate::text::{parse_i64, parse_i64_spec, push_str, str_eq};

verus! {

/// A parsed `.stem` file.
#[derive(Debug, Default)]
pub struct Document {
    pub metadata: Metadata,
    pub blocks: Vec<Block>,
}

/// The `[k:v, k:v]` header.
#[derive(Clone, Debug, Default)]
pub struct Metadata {
    pub span: Span,
    pub properties: Vec<Property>,
}

/// The keys of a property list, in order.
pub open spec fn prop_keys(props: Seq<Property>) -> Seq<Seq<char>> {
    props.map_values(|p: Property| p.key@)
}

/// The value of the first property whose key is `key`.
pub open spec fn lookup(props: Seq<Property>, key: Seq<char>) -> Option<PropertyValue> {
    match first_match(prop_keys(props), key) {
        Some(i) => Some(props[i].value),
        None => None,
    }
}

/// The text of the first property whose key is `key`.
pub open spec fn lookup_str(props: Seq<Property>, key: Seq<char>) -> Option<Seq<char>> {
    match lookup(props, key) {
        Some(v) => Some(v.text()),
        None => None,
    }
}

/// Finds the first property with key `key`.
fn find_prop<'a>(props: &'a Vec<Property>, key: &str) -> (r: Option<&'a PropertyValue>)
    ensures
        match r {
            Some(v) => lookup(props@, key@) == Some(*v),
            None => lookup(props@, key@) is None,
        },
{
    let mut i: usize = 0;
    while i < props.len()
        invariant
            i <= props@.len(),
            forall|j: int| 0 <= j < i ==> prop_keys(props@)[j] != key@,
        decreases props@.len() - i,
    {
        if str_eq(props[i].key.as_str(), key) {
            proof {
                lemma_first_match_is(prop_keys(props@), key@, i as int);
            }
            return Some(&props[i].value);
        }
        i = i + 1;
    }
    proof {
        lemma_first_match(prop_keys(props@), key@);
        match first_match(prop_keys(props@), key@) {
            Some(k) => {
                assert(prop_keys(props@)[k] != key@);
            },
            None => {},
        }
    }
    None
}

impl Metadata {
    pub fn get(&self, key: &str) -> (r: Option<&PropertyValue>)
        ensures
            match r {
                Some(v) => lookup(self.properties@, key@) == Some(*v),
                None => lookup(self.properties@, key@) is None,
            },
    {
        find_prop(&self.properties, key)
    }

    pub fn get_str(&self, key: &str) -> (r: Option<&str>)
        ensures
            match r {
                Some(s) => lookup_str(self.properties@, key@) == Some(s@),
                None => lookup_str(self.properties@, key@) is None,
            },
    {
        match self.get(key) {
            Some(v) => Some(v.as_str()),
            None => None,
        }
    }
}

/// The core uniform block. Every syntactic element is a `Block`.
#[derive(Debug)]
pub struct Block {
    pub name: String,
    pub name_span: Span,
    pub properties: Vec<Property>,
    pub body: Body,
    /// Whether the source used the `@`-prefix (inline) form.
    pub inline_form: bool,
    pub span: Span,
}

/// The concatenated literal texts of a piece list, or `None` when an
/// inline element is among them.
pub open spec fn literal_concat(pieces: Seq<TextPiece>) -> Option<Seq<char>>
    decreases pieces.len(),
{
    if pieces.len() == 0 {
        Some(Seq::empty())
    } else {
        match literal_concat(pieces.drop_last()) {
            Some(s) => match pieces.last() {
                TextPiece::Literal { text, .. } => Some(s + text@),
                TextPiece::Inline(_) => None,
            },
            None => None,
        }
    }
}

/// The text of a block whose body is text made only of literals.
pub open spec fn plain_text_spec(b: Block) -> Option<Seq<char>> {
    match b.body {
        Body::Text(pieces) => literal_concat(pieces@),
        _ => None,
    }
}

impl Block {
    /// The text content if the body is `Text` and contains only literals
    /// (no inline blocks).
    pub fn plain_text(&self) -> (r: Option<String>)
        ensures
            match r {
                Some(s) => plain_text_spec(*self) == Some(s@),
                None => plain_text_spec(*self) is None,
            },
    {
        match &self.body {
            Body::Text(pieces) => {
                let mut s = String::new();
                let mut i: usize = 0;
                while i < pieces.len()
                    invariant
                        i <= pieces@.len(),
                        plain_text_spec(*self) == literal_concat(pieces@),
                        literal_concat(pieces@.take(i as int)) == Some(s@),
                    decreases pieces@.len() - i,
                {
                    proof {
                        assert(pieces@.take(i + 1).drop_last() =~= pieces@.take(i as int));
                    }
                    match &pieces[i] {
                        TextPiece::Literal { text, .. } => push_str(&mut s, text.as_str()),
                        TextPiece::Inline(_) => {
                            proof {
                                lemma_literal_concat_none_extends(pieces@, i as int + 1);
                            }
                            return None;
                        },
                    }
                    i = i + 1;
                }
                proof {
                    assert(pieces@.take(i as int) =~= pieces@);
                }
                Some(s)
            },
            _ => None,
        }
    }

    /// Looks up a property by key (the first one wins).
    pub fn prop(&self, key: &str) -> (r: Option<&PropertyValue>)
        ensures
            match r {
                Some(v) => lookup(self.properties@, key@) == Some(*v),
                None => lookup(self.properties@, key@) is None,
            },
    {
        find_prop(&self.properties, key)
    }

    pub fn prop_str(&self, key: &str) -> (r: Option<&str>)
        ensures
            match r {
                Some(s) => lookup_str(self.properties@, key@) == Some(s@),
                None => lookup_str(self.properties@, key@) is None,
            },
    {
        match self.prop(key) {
            Some(v) => Some(v.as_str()),
            None => None,
        }
    }
}

/// Once an inline piece appears, no longer prefix is all literals.
proof fn lemma_literal_concat_none_extends(pieces: Seq<TextPiece>, k: int)
    requires
        0 < k <= pieces.len(),
        pieces[k - 1] is Inline,
    ensures
        literal_concat(pieces) is None,
    decreases pieces.len(),
{
    if k < pieces.len() {
        lemma_literal_concat_none_extends(pieces.drop_last(), k);
    }
}

/// What a block's body looks like in source.
#[derive(Debug)]
pub enum Body {
    /// No body. The block is just `name` or `name[props]`.
    Empty,
    /// A text body `( … )`.
    Text(Vec<TextPiece>),
    /// A block body `{ … }` containing child blocks.
    Children(Vec<Block>),
}

impl Body {
    pub fn is_none(&self) -> (r: bool)
        ensures
            r == (*self is Empty),
    {
        match self {
            Body::Empty => true,
            _ => false,
        }
    }

    pub fn is_text(&self) -> (r: bool)
        ensures
            r == (*self is Text),
    {
        match self {
            Body::Text(_) => true,
            _ => false,
        }
    }

    pub fn is_children(&self) -> (r: bool)
        ensures
            r == (*self is Children),
    {
        match self {
            Body::Children(_) => true,
            _ => false,
        }
    }
}

/// One element of a text-body piece list.
#[derive(Debug)]
pub enum TextPiece {
    Literal { text: String, span: Span },
    /// An inline element, written `@ident[props](text)` in source.
    Inline(Block),
}

impl TextPiece {
    pub fn span(&self) -> (r: Span)
        ensures
            r == match *self {
                TextPiece::Literal { span, .. } => span,
                TextPiece::Inline(b) => b.span,
            },
    {
        match self {
            TextPiece::Literal { span, .. } => *span,
            TextPiece::Inline(b) => b.span,
        }
    }
}

/// A key-value pair in a `[...]` properties block.
#[derive(Clone, Debug)]
pub struct Property {
    pub key: String,
    pub key_span: Span,
    pub value: PropertyValue,
    pub value_span: Span,
}

/// A property's value; both variants decode to the same text.
#[derive(Clone, Debug)]
pub enum PropertyValue {
    Bare(String),
    Quoted(String),
}

/// The boolean a property text spells, if any.
pub open spec fn bool_word(s: Seq<char>) -> Option<bool> {
    if s == "true"@ || s == "yes"@ || s == "on"@ {
        Some(true)
    } else if s == "false"@ || s == "no"@ || s == "off"@ {
        Some(false)
    } else {
        None
    }
}

/// Reads `true`/`yes`/`on` and `false`/`no`/`off`.
pub(crate) fn parse_bool_word(s: &str) -> (r: Option<bool>)
    ensures
        r == bool_word(s@),
{
    if str_eq(s, "true") || str_eq(s, "yes") || str_eq(s, "on") {
        Some(true)
    } else if str_eq(s, "false") || str_eq(s, "no") || str_eq(s, "off") {
        Some(false)
    } else {
        None
    }
}

impl PropertyValue {
    /// The decoded text, whichever form the author used.
    pub open spec fn text(self) -> Seq<char> {
        match self {
            PropertyValue::Bare(s) => s@,
            PropertyValue::Quoted(s) => s@,
        }
    }

    pub fn as_str(&self) -> (r: &str)
        ensures
            r@ == self.text(),
    {
        match self {
            PropertyValue::Bare(s) => s.as_str(),
            PropertyValue::Quoted(s) => s.as_str(),
        }
    }

    pub fn as_i64(&self) -> (r: Option<i64>)
        ensures
            match r {
                Some(v) => parse_i64_spec(self.text()) == Some(v as int),
                None => parse_i64_spec(self.text()) is None,
            },
    {
        parse_i64(self.as_str())
    }

    pub fn as_bool(&self) -> (r: Option<bool>)
        ensures
            r == bool_word(self.text()),
    {
        parse_bool_word(self.as_str())
    }

    /// Returns true if the original source used quoted form.
    pub fn was_quoted(&self) -> (r: bool)
        ensures
            r == (*self is Quoted),
    {
        match self {
            PropertyValue::Quoted(_) => true,
            _ => false,
        }
    }
}

} // verus!
