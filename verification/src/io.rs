//! Importer and Exporter traits.
//!
//! Stem treats other document formats as a star pattern around the
//! `Document` AST. Every external format has an [`Importer`] (format
//! → `Document`) and/or an [`Exporter`] (`Document` → format).

use vstd::prelude::*;

use crate::ast_v2::Document;
use crate::theme::Theme;

verus! {

/// Convert an external document representation into a Stem AST.
pub trait Importer {
    type Input;
    type Error;

    fn import(&self, input: Self::Input) -> Result<Document, Self::Error>;
}

/// Convert a Stem AST into an external document representation. The
/// `Output` type is `String` for text/HTML targets and `Vec<u8>` for
/// binary targets.
pub trait Exporter {
    type Output;
    type Error;

    fn export(&self, doc: &Document, theme: &Theme) -> Result<Self::Output, Self::Error>;
}

} // verus!
