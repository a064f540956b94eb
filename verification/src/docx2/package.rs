//! ZIP packaging of OOXML parts into a `.docx` byte stream.
//!
//! A `.docx` file is an OPC ZIP whose entries are the OOXML parts, all
//! deflated. The archive itself is written by the packager of
//! [`crate::docx::package`].

use vstd::prelude::*;
use vstd::string::StrSliceExecFns;

use crate::docx::package as opc;
use crate::docx::DocxError;

use super::DocxV2Error;

verus! {

/// One OOXML part: zip path (e.g. `word/document.xml`) and its bytes.
pub struct Part {
    pub path: &'static str,
    pub data: Vec<u8>,
}

impl Part {
    pub fn new(path: &'static str, data: Vec<u8>) -> (p: Self)
        ensures
            p.path@ == path@,
            p.data@ == data@,
    {
        Part { path, data }
    }

    /// A text part, stored as its UTF-8 bytes.
    pub fn from_str(path: &'static str, data: String) -> (p: Self)
        ensures
            p.path@ == path@,
            p.data@ == vstd::utf8::encode_utf8(data@),
    {
        Part { path, data: data.as_str().as_bytes_vec() }
    }
}

/// A part as plain values: path and bytes.
pub open spec fn entry_views(ps: Seq<Part>) -> Seq<(Seq<char>, Seq<u8>)> {
    ps.map_values(|p: Part| (p.path@, p.data@))
}

/// The ZIP archive of the parts, in order.
pub fn pack(parts: &[Part]) -> (r: Result<Vec<u8>, DocxV2Error>)
    ensures
        r matches Ok(b) ==> b@ == opc::zip_archive(entry_views(parts@)),
        opc::entries_fit(entry_views(parts@)) ==> r is Ok,
        r matches Err(e) ==> e is Pack,
{
    let mut entries: Vec<opc::Part> = Vec::new();
    let mut i: usize = 0;
    proof {
        assert(opc::part_views(entries@) =~= entry_views(parts@.take(0)));
    }
    while i < parts.len()
        invariant
            i <= parts@.len(),
            opc::part_views(entries@) == entry_views(parts@.take(i as int)),
        decreases parts@.len() - i,
    {
        let p = &parts[i];
        let ghost before = entries@;
        let e = opc::Part::bytes(p.path, crate::docx2::emit::drawing::copy_bytes(&p.data));
        entries.push(e);
        proof {
            assert(opc::part_views(entries@) =~= opc::part_views(before).push(opc::part_view(e)));
            assert(entry_views(parts@.take(i + 1)) =~= entry_views(parts@.take(i as int)).push(
                (parts@[i as int].path@, parts@[i as int].data@),
            ));
        }
        i = i + 1;
    }
    proof {
        assert(parts@.take(i as int) =~= parts@);
    }
    match opc::pack(entries.as_slice()) {
        Ok(bytes) => Ok(bytes),
        Err(DocxError::Pack(m)) => Err(DocxV2Error::Pack(m)),
        Err(DocxError::ImageRead { path, source }) => Err(DocxV2Error::ImageRead { path, source }),
    }
}

} // verus!
