//! Stem: a declarative markup language for documents, with its AST and
//! its HTML and docx exporters.

pub mod ast;
pub mod ast_v2;
pub mod diagnostic;
pub mod io;
pub mod keys;
pub mod span;
pub mod text;
pub mod theme;
pub mod docx;
pub mod docx2;
pub mod docx_builder;
pub mod html;
