//! Canonical `Type` URIs for the relationships we emit.

use vstd::prelude::*;

verus! {

pub const OFFICE_DOC: &'static str = "http://schemas.openxmlformats.org/officeDocument/2006/relationships/officeDocument";

pub const STYLES: &'static str = "http://schemas.openxmlformats.org/officeDocument/2006/relationships/styles";

pub const NUMBERING: &'static str = "http://schemas.openxmlformats.org/officeDocument/2006/relationships/numbering";

pub const THEME: &'static str = "http://schemas.openxmlformats.org/officeDocument/2006/relationships/theme";

pub const SETTINGS: &'static str = "http://schemas.openxmlformats.org/officeDocument/2006/relationships/settings";

pub const WEB_SETTINGS: &'static str = "http://schemas.openxmlformats.org/officeDocument/2006/relationships/webSettings";

pub const FONT_TABLE: &'static str = "http://schemas.openxmlformats.org/officeDocument/2006/relationships/fontTable";

pub const FOOTNOTES: &'static str = "http://schemas.openxmlformats.org/officeDocument/2006/relationships/footnotes";

pub const ENDNOTES: &'static str = "http://schemas.openxmlformats.org/officeDocument/2006/relationships/endnotes";

pub const HEADER: &'static str = "http://schemas.openxmlformats.org/officeDocument/2006/relationships/header";

pub const FOOTER: &'static str = "http://schemas.openxmlformats.org/officeDocument/2006/relationships/footer";

pub const HYPERLINK: &'static str = "http://schemas.openxmlformats.org/officeDocument/2006/relationships/hyperlink";

pub const IMAGE: &'static str = "http://schemas.openxmlformats.org/officeDocument/2006/relationships/image";

pub const CORE_PROPS: &'static str = "http://schemas.openxmlformats.org/package/2006/relationships/metadata/core-properties";

pub const EXTENDED_PROPS: &'static str = "http://schemas.openxmlformats.org/officeDocument/2006/relationships/extended-properties";

} // verus!
