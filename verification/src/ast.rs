//! The first-generation AST.
//!
//! Two layers:
//! - Raw layer: `Node`, `FunctionCall`, `Content`, `Property` — what the
//!   parser produces directly. Faithful to source.
//! - Cooked layer: `Block`, `Inline`, `Paragraph`, `ListItem` — the result
//!   of running the markdown-flavored second pass on raw content runs.

use vstd::prelude::*;

use crate::ast_v2::{bool_word, parse_bool_word};
use crate::keys::{first_match, lemma_first_match, lemma_first_match_is};
use crate::span::Span;
use crate::text::{parse_i64, parse_i64_spec, str_eq};

verus! {

/// A parsed `.stem` file.
#[derive(Debug, Default)]
pub struct Document {
    pub metadata: Metadata,
    pub nodes: Vec<Node>,
}

/// The `[type:..., ...]` header.
#[derive(Clone, Debug, Default)]
pub struct Metadata {
    pub span: Span,
    pub properties: Vec<Property>,
}

/// The keys of a property list, in order.
pub open spec fn prop_keys(props: Seq<Property>) -> Seq<Seq<char>> {
    props.map_values(|p: Property| p.key@)
}

/// The value of the first property whose key is `key`.
pub open spec fn lookup(props: Seq<Property>, key: Seq<char>) -> Option<PropertyValue> {
    match first_match(prop_keys(props), key) {
        Some(i) => Some(props[i].value),
        None => None,
    }
}

impl Metadata {
    pub fn get(&self, key: &str) -> (r: Option<&PropertyValue>)
        ensures
            match r {
                Some(v) => lookup(self.properties@, key@) == Some(*v),
                None => lookup(self.properties@, key@) is None,
            },
    {
        let props = &self.properties;
        let mut i: usize = 0;
        while i < props.len()
            invariant
                i <= props@.len(),
                props == &self.properties,
                forall|j: int| 0 <= j < i ==> prop_keys(props@)[j] != key@,
            decreases props@.len() - i,
        {
            if str_eq(props[i].key.as_str(), key) {
                proof {
                    lemma_first_match_is(prop_keys(props@), key@, i as int);
                }
                return Some(&props[i].value);
            }
            i = i + 1;
        }
        proof {
            lemma_first_match(prop_keys(props@), key@);
            match first_match(prop_keys(props@), key@) {
                Some(k) => {
                    assert(prop_keys(props@)[k] != key@);
                },
                None => {},
            }
        }
        None
    }

    pub fn get_str(&self, key: &str) -> (r: Option<&str>)
        ensures
            match r {
                Some(s) => lookup(self.properties@, key@) matches Some(v) && v.text() == s@,
                None => lookup(self.properties@, key@) is None,
            },
    {
        match self.get(key) {
            Some(v) => Some(v.as_str()),
            None => None,
        }
    }
}

/// A property key/value pair in a `[...]` list.
#[derive(Clone, Debug)]
pub struct Property {
    pub key: String,
    pub key_span: Span,
    pub value: PropertyValue,
    pub value_span: Span,
}

#[derive(Clone, Debug)]
pub enum PropertyValue {
    /// A bare token like `red`, `2`, or `corporate`.
    Bare(String),
    /// A `"quoted string"` literal.
    Quoted(String),
}

impl PropertyValue {
    /// The decoded text.
    pub open spec fn text(self) -> Seq<char> {
        match self {
            PropertyValue::Bare(s) => s@,
            PropertyValue::Quoted(s) => s@,
        }
    }

    pub fn as_str(&self) -> (r: &str)
        ensures
            r@ == self.text(),
    {
        match self {
            PropertyValue::Bare(s) => s.as_str(),
            PropertyValue::Quoted(s) => s.as_str(),
        }
    }

    pub fn as_i64(&self) -> (r: Option<i64>)
        ensures
            match r {
                Some(v) => parse_i64_spec(self.text()) == Some(v as int),
                None => parse_i64_spec(self.text()) is None,
            },
    {
        parse_i64(self.as_str())
    }

    pub fn as_bool(&self) -> (r: Option<bool>)
        ensures
            r == bool_word(self.text()),
    {
        parse_bool_word(self.as_str())
    }
}

/// A top-level node — either a function call or a stretch of raw text.
#[derive(Debug)]
pub enum Node {
    Call(FunctionCall),
    Text(TextRun),
}

impl Node {
    pub fn span(&self) -> (r: Span)
        ensures
            r == match *self {
                Node::Call(c) => c.span,
                Node::Text(t) => t.span,
            },
    {
        match self {
            Node::Call(c) => c.span,
            Node::Text(t) => t.span,
        }
    }
}

/// A `name(arg)(arg)...[props]` call, as parsed. Each `(...)` is one
/// argument group; the last group is the body.
#[derive(Debug)]
pub struct FunctionCall {
    pub name: String,
    pub name_span: Span,
    pub kind: CallKind,
    pub args: Vec<Vec<Content>>,
    pub properties: Vec<Property>,
    pub span: Span,
}

impl FunctionCall {
    /// The last argument group, or nothing when there are no groups.
    pub fn body(&self) -> (r: &[Content])
        ensures
            self.args@.len() == 0 ==> r@.len() == 0,
            self.args@.len() > 0 ==> r@ == self.args@.last()@,
    {
        let n = self.args.len();
        if n == 0 {
            &[]
        } else {
            self.args[n - 1].as_slice()
        }
    }

    /// The leading "header" group, present only on chained calls like
    /// `section(cover)(body)`.
    pub fn header(&self) -> (r: Option<&[Content]>)
        ensures
            match r {
                Some(h) => self.args@.len() > 1 && h@ == self.args@[0]@,
                None => self.args@.len() <= 1,
            },
    {
        if self.args.len() <= 1 {
            None
        } else {
            Some(self.args[0].as_slice())
        }
    }
}

#[derive(Clone, Copy, Debug, PartialEq, Eq, Hash, Structural)]
pub enum CallKind {
    Block,
    Inline,
}

/// One element of a function's content list: a literal text run or a
/// nested call.
#[derive(Debug)]
pub enum Content {
    Text(TextRun),
    Call(FunctionCall),
}

impl Content {
    pub fn span(&self) -> (r: Span)
        ensures
            r == match *self {
                Content::Text(t) => t.span,
                Content::Call(c) => c.span,
            },
    {
        match self {
            Content::Text(t) => t.span,
            Content::Call(c) => c.span,
        }
    }
}

#[derive(Clone, Debug)]
pub struct TextRun {
    pub text: String,
    pub span: Span,
}

/// A block-level cooked element produced by the markdown pass.
#[derive(Debug)]
pub enum Block {
    Heading { level: u8, runs: Vec<Inline>, span: Span },
    Paragraph(Paragraph),
    List { kind: ListKind, items: Vec<ListItem>, span: Span },
    /// A function call surfaced as a block.
    Call(FunctionCall),
}

#[derive(Debug)]
pub struct Paragraph {
    pub runs: Vec<Inline>,
    pub span: Span,
}

#[derive(Clone, Copy, Debug, PartialEq, Eq, Hash, Structural)]
pub enum ListKind {
    Unordered,
    Ordered,
}

#[derive(Debug)]
pub struct ListItem {
    pub runs: Vec<Inline>,
    pub span: Span,
}

#[derive(Debug)]
pub enum Inline {
    Text { text: String, style: TextStyle, span: Span },
    Call(FunctionCall),
}

#[derive(Clone, Copy, Debug, Default, PartialEq, Eq, Hash, Structural)]
pub struct TextStyle {
    pub bold: bool,
    pub italic: bool,
    pub code: bool,
}

#[derive(Clone, Debug)]
pub struct MarkdownLine {
    pub kind: LineKind,
    pub raw: String,
    pub span: Span,
}

#[derive(Clone, Copy, Debug, PartialEq, Eq, Hash, Structural)]
pub enum LineKind {
    Blank,
    Heading(u8),
    Bullet,
    Ordered,
    Paragraph,
}

} // verus!
