//! Body emitters — convert AST blocks into OOXML fragments appended to
//! an [`XmlBuf`](crate::docx::xml::XmlBuf).

pub mod caption;
pub mod ctx;
pub mod drawing;
pub mod field;
pub mod hyperlink;
pub mod length;
pub mod paragraph;
pub mod prepass;
pub mod run;
pub mod state;
pub mod toc;
