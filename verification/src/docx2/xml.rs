//! Escaping helpers for hand-built XML fragments.

use vstd::prelude::*;

use crate::docx::xml::{esc_attr, esc_text, write_escaped_attr, XmlBuf};

verus! {

/// Escape `&`, `<`, `>` in element text content. Quotes are left
/// alone (they are only special inside attribute values).
pub fn escape_text(s: &str) -> (r: String)
    ensures
        r@ == esc_text(s@),
{
    let mut x = XmlBuf::new();
    x.text(s);
    x.finish()
}

/// Escape `&`, `<`, `>`, `"`, and `'` for use inside double-quoted
/// XML attribute values.
pub fn escape_attr(s: &str) -> (r: String)
    ensures
        r@ == esc_attr(s@),
{
    let mut out = String::new();
    write_escaped_attr(&mut out, s);
    out
}

} // verus!
