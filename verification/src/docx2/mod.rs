//! Stem AST → .docx via direct OOXML emission: the body emitters and
//! the parts they feed, and a packager of their own.

use vstd::prelude::*;

use crate::text::to_owned_string;

pub mod emit;
pub mod package;
pub mod parts;
pub mod xml;

verus! {

/// What export can fail with.
pub enum DocxV2Error {
    /// The ZIP writer refused an entry or the archive.
    Pack(String),
    /// An image file could not be read.
    ImageRead { path: String, source: String },
}

pub struct DocxV2Exporter {
    /// Directory used to resolve relative `image[src:..]` paths. When
    /// unset, relative paths resolve against the process's current
    /// working directory.
    pub image_base: Option<String>,
}

impl DocxV2Exporter {
    pub fn new() -> (e: Self)
        ensures
            e.image_base is None,
    {
        DocxV2Exporter { image_base: None }
    }

    /// Resolve relative image paths against `base`. Absolute paths are
    /// still used verbatim.
    pub fn with_image_base(self, base: &str) -> (e: Self)
        ensures
            e.image_base matches Some(b) && b@ == base@,
    {
        DocxV2Exporter { image_base: Some(to_owned_string(base)) }
    }
}

} // verus!
