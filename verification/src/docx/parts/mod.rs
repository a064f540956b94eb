//! OOXML parts. Each submodule emits one part (or family of parts) as a
//! `String` ready to be added to the ZIP package.

pub mod doc_props;
pub mod document;
pub mod endnotes;
pub mod header_footer;
pub mod settings;
pub mod styles;
pub mod web_settings;
