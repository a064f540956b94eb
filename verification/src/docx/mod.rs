//! Stem AST → .docx via direct OOXML emission.
//!
//! Emits each OOXML part as a string and packages them into the
//! `.docx` ZIP directly. Children of every container element are
//! written in the canonical schema order on the first pass — no
//! post-process repair step.
//!
//! Layout:
//! - `parts/` — top-level OOXML parts (document, styles, settings,
//!   header/footer, doc props, …).
//! - `emit/` — the table emitter (the other body emitters and the shared
//!   `EmitCtx` live in [`crate::docx2::emit`]).
//! - `package.rs` — ZIP packaging.
//! - `xml.rs` — small string-based XML builder with namespaces.

use vstd::prelude::*;

use crate::text::to_owned_string;

pub mod emit;
pub mod package;
pub mod parts;
pub mod xml;

verus! {

/// What export can fail with.
pub enum DocxError {
    /// The ZIP writer refused an entry or the archive.
    Pack(String),
    /// An image file could not be read.
    ImageRead { path: String, source: String },
}

pub struct DocxExporter {
    /// Directory used to resolve relative `image[src:..]` paths. When
    /// unset, relative paths resolve against the process's current
    /// working directory.
    pub image_base: Option<String>,
}

impl DocxExporter {
    pub fn new() -> (e: Self)
        ensures
            e.image_base is None,
    {
        DocxExporter { image_base: None }
    }

    /// Resolve relative image paths against `base`. Absolute paths are
    /// still used verbatim.
    pub fn with_image_base(self, base: &str) -> (e: Self)
        ensures
            e.image_base matches Some(b) && b@ == base@,
    {
        DocxExporter { image_base: Some(to_owned_string(base)) }
    }
}

} // verus!
