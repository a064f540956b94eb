//! `[Content_Types].xml` — declares the MIME type of every part in
//! the package. Word refuses to open a docx whose parts aren't
//! registered here, so this list must stay in sync with what we
//! actually emit.

use vstd::prelude::*;

use crate::docx::xml::{
    attr1, attr2, element, empty_tag, group_concat, xml_declaration, XmlBuf,
};
use crate::text::to_owned_string;

verus! {

broadcast use group_concat;

/// The content types of the empty scaffold document.
pub open spec fn minimal_xml() -> Seq<char> {
    "<?xml version=\"1.0\" encoding=\"UTF-8\" standalone=\"yes\"?>\n<Types xmlns=\"http://schemas.openxmlformats.org/package/2006/content-types\">\n  <Default Extension=\"rels\" ContentType=\"application/vnd.openxmlformats-package.relationships+xml\"/>\n  <Default Extension=\"xml\" ContentType=\"application/xml\"/>\n  <Override PartName=\"/word/document.xml\" ContentType=\"application/vnd.openxmlformats-officedocument.wordprocessingml.document.main+xml\"/>\n</Types>\n"@
}

/// Content types for the minimal empty docx: only the document part.
pub fn minimal() -> (s: String)
    ensures
        s@ == minimal_xml(),
{
    to_owned_string(
        "<?xml version=\"1.0\" encoding=\"UTF-8\" standalone=\"yes\"?>\n<Types xmlns=\"http://schemas.openxmlformats.org/package/2006/content-types\">\n  <Default Extension=\"rels\" ContentType=\"application/vnd.openxmlformats-package.relationships+xml\"/>\n  <Default Extension=\"xml\" ContentType=\"application/xml\"/>\n  <Override PartName=\"/word/document.xml\" ContentType=\"application/vnd.openxmlformats-officedocument.wordprocessingml.document.main+xml\"/>\n</Types>\n",
    )
}

/// A content-types part under construction: per-extension defaults
/// and per-part overrides, each `(key, content type)`, in the order
/// added.
pub struct ContentTypes {
    defaults: Vec<(String, String)>,
    overrides: Vec<(String, String)>,
}

/// Pairs of strings as pairs of character sequences.
pub open spec fn pair_views(v: Seq<(String, String)>) -> Seq<(Seq<char>, Seq<char>)> {
    v.map_values(|p: (String, String)| (p.0@, p.1@))
}

impl View for ContentTypes {
    type V = (Seq<(Seq<char>, Seq<char>)>, Seq<(Seq<char>, Seq<char>)>);

    closed spec fn view(&self) -> (Seq<(Seq<char>, Seq<char>)>, Seq<(Seq<char>, Seq<char>)>) {
        (pair_views(self.defaults@), pair_views(self.overrides@))
    }
}

/// The two defaults every package has: relationships and plain XML.
pub open spec fn standard_defaults() -> Seq<(Seq<char>, Seq<char>)> {
    seq![
        ("rels"@, "application/vnd.openxmlformats-package.relationships+xml"@),
        ("xml"@, "application/xml"@),
    ]
}

/// `<Default>` elements, in order.
pub open spec fn defaults_xml(d: Seq<(Seq<char>, Seq<char>)>) -> Seq<char>
    decreases d.len(),
{
    if d.len() == 0 {
        Seq::empty()
    } else {
        defaults_xml(d.drop_last()) + empty_tag(
            "Default"@,
            attr2("Extension"@, d.last().0, "ContentType"@, d.last().1),
        )
    }
}

/// `<Override>` elements, in order.
pub open spec fn overrides_xml(o: Seq<(Seq<char>, Seq<char>)>) -> Seq<char>
    decreases o.len(),
{
    if o.len() == 0 {
        Seq::empty()
    } else {
        overrides_xml(o.drop_last()) + empty_tag(
            "Override"@,
            attr2("PartName"@, o.last().0, "ContentType"@, o.last().1),
        )
    }
}

/// The whole part: all defaults, then all overrides.
pub open spec fn content_types_xml(
    d: Seq<(Seq<char>, Seq<char>)>,
    o: Seq<(Seq<char>, Seq<char>)>,
) -> Seq<char> {
    xml_declaration() + element(
        "Types"@,
        attr1("xmlns"@, "http://schemas.openxmlformats.org/package/2006/content-types"@),
        defaults_xml(d) + overrides_xml(o),
    )
}

/// A builder holding the two standard defaults and no overrides.
pub fn builder() -> (b: ContentTypes)
    ensures
        b@ == (standard_defaults(), Seq::<(Seq<char>, Seq<char>)>::empty()),
{
    let mut defaults: Vec<(String, String)> = Vec::new();
    defaults.push(
        (
            to_owned_string("rels"),
            to_owned_string("application/vnd.openxmlformats-package.relationships+xml"),
        ),
    );
    defaults.push((to_owned_string("xml"), to_owned_string("application/xml")));
    let b = ContentTypes { defaults, overrides: Vec::new() };
    proof {
        assert(pair_views(b.defaults@) =~= standard_defaults());
        assert(pair_views(b.overrides@) =~= Seq::<(Seq<char>, Seq<char>)>::empty());
    }
    b
}

impl ContentTypes {
    /// Register a content type for every part with extension `ext`.
    pub fn default_extension(self, ext: &str, content_type: &str) -> (b: Self)
        ensures
            b@ == (self@.0.push((ext@, content_type@)), self@.1),
    {
        let mut b = self;
        b.defaults.push((to_owned_string(ext), to_owned_string(content_type)));
        proof {
            assert(pair_views(b.defaults@) =~= pair_views(self.defaults@).push((ext@, content_type@)));
        }
        b
    }

    /// Register the content type of one part.
    pub fn override_part(self, part: &str, content_type: &str) -> (b: Self)
        ensures
            b@ == (self@.0, self@.1.push((part@, content_type@))),
    {
        let mut b = self;
        b.overrides.push((to_owned_string(part), to_owned_string(content_type)));
        proof {
            assert(pair_views(b.overrides@) =~= pair_views(self.overrides@).push((part@, content_type@)));
        }
        b
    }

    /// Serialize the part.
    pub fn finish(&self) -> (s: String)
        ensures
            s@ == content_types_xml(self@.0, self@.1),
    {
        let mut x = XmlBuf::new();
        x.xml_decl();
        x.open1("Types", "xmlns", "http://schemas.openxmlformats.org/package/2006/content-types");
        let ghost s1 = x@;
        let ghost d = pair_views(self.defaults@);
        let mut i: usize = 0;
        while i < self.defaults.len()
            invariant
                i <= self.defaults@.len(),
                d == pair_views(self.defaults@),
                x@ == s1 + defaults_xml(d.take(i as int)),
            decreases self.defaults@.len() - i,
        {
            let (ext, ct) = &self.defaults[i];
            x.empty2("Default", "Extension", ext.as_str(), "ContentType", ct.as_str());
            proof {
                assert(d.take(i + 1).drop_last() =~= d.take(i as int));
            }
            i = i + 1;
        }
        proof {
            assert(d.take(i as int) =~= d);
        }
        let ghost s2 = x@;
        let ghost o = pair_views(self.overrides@);
        let mut j: usize = 0;
        while j < self.overrides.len()
            invariant
                j <= self.overrides@.len(),
                o == pair_views(self.overrides@),
                x@ == s2 + overrides_xml(o.take(j as int)),
            decreases self.overrides@.len() - j,
        {
            let (part, ct) = &self.overrides[j];
            x.empty2("Override", "PartName", part.as_str(), "ContentType", ct.as_str());
            proof {
                assert(o.take(j + 1).drop_last() =~= o.take(j as int));
            }
            j = j + 1;
        }
        proof {
            assert(o.take(j as int) =~= o);
            assert(x@ =~= s1 + (defaults_xml(d) + overrides_xml(o)));
        }
        x.close("Types");
        x.finish()
    }
}

} // verus!
