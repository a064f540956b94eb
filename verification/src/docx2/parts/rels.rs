//! OPC relationship parts.
//!
//! Two layers:
//! - `_rels/.rels` — root, points at the main document part.
//! - `word/_rels/document.xml.rels` — document-level rels (styles,
//!   numbering, theme, settings, hyperlinks, etc.).
//! - Per-part rels (`word/_rels/headerN.xml.rels`, etc.) — emitted
//!   alongside their owning part.

use vstd::prelude::*;

use crate::docx::xml::{
    attr1, attr_views, element, empty_tag, group_concat, xml_declaration, XmlBuf,
};
use crate::text::to_owned_string;

pub mod kind;

verus! {

broadcast use group_concat;

/// One relationship entry: `<Relationship Id="rIdN" Type="..." Target="..."/>`.
pub struct Rel {
    pub id: String,
    pub kind: &'static str,
    pub target: String,
    /// `External` for hyperlinks to outside URIs; `false` (the
    /// default) for in-package targets.
    pub target_mode_external: bool,
}

/// A relationship as plain values.
pub struct RelView {
    pub id: Seq<char>,
    pub kind: Seq<char>,
    pub target: Seq<char>,
    pub external: bool,
}

impl View for Rel {
    type V = RelView;

    open spec fn view(&self) -> RelView {
        RelView { id: self.id@, kind: self.kind@, target: self.target@, external: self.target_mode_external }
    }
}

/// An in-package relationship.
pub open spec fn internal(id: Seq<char>, kind: Seq<char>, target: Seq<char>) -> RelView {
    RelView { id, kind, target, external: false }
}

impl Rel {
    pub fn new(id: &str, kind: &'static str, target: &str) -> (r: Self)
        ensures
            r@ == internal(id@, kind@, target@),
    {
        Self { id: to_owned_string(id), kind, target: to_owned_string(target), target_mode_external: false }
    }

    pub fn external(id: &str, kind: &'static str, target: &str) -> (r: Self)
        ensures
            r@ == (RelView { id: id@, kind: kind@, target: target@, external: true }),
    {
        Self { id: to_owned_string(id), kind, target: to_owned_string(target), target_mode_external: true }
    }
}

/// The attributes of one `<Relationship>`.
pub open spec fn rel_attrs(r: RelView) -> Seq<(Seq<char>, Seq<char>)> {
    seq![("Id"@, r.id), ("Type"@, r.kind), ("Target"@, r.target)] + if r.external {
        seq![("TargetMode"@, "External"@)]
    } else {
        Seq::empty()
    }
}

/// One `<Relationship>` element.
pub open spec fn rel_xml(r: RelView) -> Seq<char> {
    empty_tag("Relationship"@, rel_attrs(r))
}

/// The relationships of a list, in order.
pub open spec fn rels_children(rs: Seq<RelView>) -> Seq<char>
    decreases rs.len(),
{
    if rs.len() == 0 {
        Seq::empty()
    } else {
        rels_children(rs.drop_last()) + rel_xml(rs.last())
    }
}

/// Every relationship of a list, as plain values.
pub open spec fn rel_views(rs: Seq<Rel>) -> Seq<RelView> {
    rs.map_values(|r: Rel| r@)
}

/// A whole relationships part.
pub open spec fn rels_xml(rs: Seq<RelView>) -> Seq<char> {
    xml_declaration() + element(
        "Relationships"@,
        attr1("xmlns"@, "http://schemas.openxmlformats.org/package/2006/relationships"@),
        rels_children(rs),
    )
}

fn rel_into(x: &mut XmlBuf, r: &Rel)
    ensures
        final(x)@ == old(x)@ + rel_xml(r@),
{
    let mut attrs: Vec<(&str, &str)> = Vec::new();
    attrs.push(("Id", r.id.as_str()));
    attrs.push(("Type", r.kind));
    attrs.push(("Target", r.target.as_str()));
    if r.target_mode_external {
        attrs.push(("TargetMode", "External"));
    }
    proof {
        assert(attr_views(attrs@) =~= rel_attrs(r@));
    }
    x.empty("Relationship", attrs.as_slice());
}

/// Build a relationships part from a list of [`Rel`]s.
pub fn build(rels: &[Rel]) -> (s: String)
    ensures
        s@ == rels_xml(rel_views(rels@)),
{
    let mut x = XmlBuf::new();
    x.xml_decl();
    x.open1("Relationships", "xmlns", "http://schemas.openxmlformats.org/package/2006/relationships");
    let ghost s1 = x@;
    let mut i: usize = 0;
    while i < rels.len()
        invariant
            i <= rels@.len(),
            x@ == s1 + rels_children(rel_views(rels@).take(i as int)),
        decreases rels@.len() - i,
    {
        rel_into(&mut x, &rels[i]);
        proof {
            assert(rel_views(rels@).take(i + 1).drop_last() =~= rel_views(rels@).take(i as int));
        }
        i = i + 1;
    }
    proof {
        assert(rel_views(rels@).take(i as int) =~= rel_views(rels@));
    }
    x.close("Relationships");
    x.finish()
}

/// Root relationships file: declares which part is the main document.
pub fn root() -> (s: String)
    ensures
        s@ == rels_xml(seq![internal("rId1"@, kind::OFFICE_DOC@, "word/document.xml"@)]),
{
    let rels = [Rel::new("rId1", kind::OFFICE_DOC, "word/document.xml")];
    proof {
        assert(rel_views(rels@) =~= seq![internal("rId1"@, kind::OFFICE_DOC@, "word/document.xml"@)]);
    }
    build(&rels)
}

/// The root relationships with the document properties: the
/// office-document rel first, then the docProps rels.
pub open spec fn root_with_metadata_rels() -> Seq<RelView> {
    seq![
        internal("rId1"@, kind::OFFICE_DOC@, "word/document.xml"@),
        internal("rId2"@, kind::CORE_PROPS@, "docProps/core.xml"@),
        internal("rId3"@, kind::EXTENDED_PROPS@, "docProps/app.xml"@),
    ]
}

/// Root rels including the docProps refs.
pub fn root_with_metadata() -> (s: String)
    ensures
        s@ == rels_xml(root_with_metadata_rels()),
{
    let rels = [
        Rel::new("rId1", kind::OFFICE_DOC, "word/document.xml"),
        Rel::new("rId2", kind::CORE_PROPS, "docProps/core.xml"),
        Rel::new("rId3", kind::EXTENDED_PROPS, "docProps/app.xml"),
    ];
    proof {
        assert(rel_views(rels@) =~= root_with_metadata_rels());
    }
    build(&rels)
}

/// Document-level relationships with no entries; callers that need
/// styles, numbering or theme rels build their own list and pass it
/// to [`build`].
pub fn document_minimal() -> (s: String)
    ensures
        s@ == rels_xml(Seq::empty()),
{
    let rels: [Rel; 0] = [];
    proof {
        assert(rel_views(rels@) =~= Seq::<RelView>::empty());
    }
    build(&rels)
}

} // verus!
