//! OPC ZIP packaging.
//!
//! A `.docx` file is an Open Packaging Convention ZIP archive whose
//! entries are the OOXML parts plus their relationship descriptors.
//! Word doesn't care about deflate vs store for typical parts, so every
//! entry is deflated for size. Word also doesn't enforce a particular
//! entry order, but entries keep the order callers add them in — easier
//! to diff against a reference docx that way.

use vstd::prelude::*;
use vstd::string::{StrSliceExecFns, StringSliceAdditionalSpecFns};

use crate::text::{concat2, push_str, to_owned_string};

use super::DocxError;

verus! {

/// One entry in the package: the part's path inside the ZIP (e.g.
/// `word/document.xml`, `word/media/image1.png`) and its
/// already-serialized bytes.
pub struct Part {
    pub path: String,
    pub data: Vec<u8>,
}

/// A part as plain values: path and bytes.
pub open spec fn part_view(p: Part) -> (Seq<char>, Seq<u8>) {
    (p.path@, p.data@)
}

pub open spec fn part_views(ps: Seq<Part>) -> Seq<(Seq<char>, Seq<u8>)> {
    ps.map_values(|p: Part| part_view(p))
}

impl Part {
    /// A part holding raw bytes — for binary parts like embedded images.
    pub fn bytes(path: &str, data: Vec<u8>) -> (p: Self)
        ensures
            part_view(p) == (path@, data@),
    {
        Part { path: to_owned_string(path), data }
    }

    /// A part holding XML or other text, stored as its UTF-8 bytes.
    pub fn text(path: &str, data: &str) -> (p: Self)
        ensures
            part_view(p) == (path@, data.spec_bytes()),
    {
        Part { path: to_owned_string(path), data: data.as_bytes_vec() }
    }
}

/// Accumulates parts and produces the final `.docx` byte stream, keeping
/// insertion order — callers add `[Content_Types].xml` first by
/// convention (though Word doesn't require it).
pub struct Package {
    parts: Vec<Part>,
}

impl View for Package {
    type V = Seq<(Seq<char>, Seq<u8>)>;

    closed spec fn view(&self) -> Seq<(Seq<char>, Seq<u8>)> {
        part_views(self.parts@)
    }
}

impl Package {
    pub fn new() -> (p: Self)
        ensures
            p@ == Seq::<(Seq<char>, Seq<u8>)>::empty(),
    {
        let p = Package { parts: Vec::new() };
        proof {
            assert(part_views(p.parts@) =~= Seq::<(Seq<char>, Seq<u8>)>::empty());
        }
        p
    }

    pub fn add(&mut self, part: Part)
        ensures
            final(self)@ == old(self)@.push(part_view(part)),
    {
        let ghost before = self.parts@;
        self.parts.push(part);
        proof {
            assert(part_views(self.parts@) =~= part_views(before).push(part_view(part)));
        }
    }

    pub fn add_text(&mut self, path: &str, xml: &str)
        ensures
            final(self)@ == old(self)@.push((path@, xml.spec_bytes())),
    {
        self.add(Part::text(path, xml));
    }

    pub fn add_bytes(&mut self, path: &str, data: Vec<u8>)
        ensures
            final(self)@ == old(self)@.push((path@, data@)),
    {
        self.add(Part::bytes(path, data));
    }

    /// The ZIP archive of the parts, in the order they were added.
    pub fn finish(self) -> (r: Result<Vec<u8>, DocxError>)
        ensures
            r matches Ok(b) ==> b@ == zip_archive(self@),
            entries_fit(self@) ==> r is Ok,
            r matches Err(e) ==> e is Pack,
    {
        write_zip(self.parts.as_slice())
    }
}

/// One-shot pack of a slice of parts.
pub fn pack(parts: &[Part]) -> (r: Result<Vec<u8>, DocxError>)
    ensures
        r matches Ok(b) ==> b@ == zip_archive(part_views(parts@)),
        entries_fit(part_views(parts@)) ==> r is Ok,
        r matches Err(e) ==> e is Pack,
{
    write_zip(parts)
}

// ------------------------------------------------------------------
// The ZIP writer
// ------------------------------------------------------------------

/// A ZIP archive writer over an in-memory buffer that starts empty,
/// every entry deflated with zip's default options. The writer itself
/// stays private to this struct; the functions below are its only uses.
#[verifier::external_body]
pub struct ZipSink {
    inner: zip::ZipWriter<std::io::Cursor<Vec<u8>>>,
}

#[verifier::external_type_specification]
#[verifier::external_body]
pub struct ExZipError(zip::result::ZipError);

#[verifier::external_type_specification]
#[verifier::external_body]
pub struct ExIoError(std::io::Error);

/// The entries a writer holds so far: name and data, in the order they
/// were started.
pub uninterp spec fn zip_entries(z: ZipSink) -> Seq<(Seq<char>, Seq<u8>)>;

/// Whether the writer is still open: neither finished nor stopped by an
/// error.
pub uninterp spec fn zip_open(z: ZipSink) -> bool;

/// The archive `zip` writes for these entries (each deflated with the
/// default options, its data written in one piece) into an empty
/// buffer: local headers and data in order, then the central
/// directory.
pub uninterp spec fn zip_archive(entries: Seq<(Seq<char>, Seq<u8>)>) -> Seq<u8>;

/// Entry data small enough that neither it nor its deflated form (at
/// most a few bytes per 64 KiB block larger) reaches the 4 GiB limit of
/// an entry written without the large-file option.
pub open spec fn zip_fits(d: Seq<u8>) -> bool {
    d.len() < 0xF000_0000
}

/// Every entry's data fits.
pub open spec fn entries_fit(es: Seq<(Seq<char>, Seq<u8>)>) -> bool {
    forall|i: int| 0 <= i < es.len() ==> zip_fits(#[trigger] es[i].1)
}

/// The last entry, if any, fits.
pub open spec fn last_fits(es: Seq<(Seq<char>, Seq<u8>)>) -> bool {
    es.len() == 0 || zip_fits(es.last().1)
}

/// `zip::ZipWriter::new` over `Cursor::new(Vec::new())`: an open writer
/// over an empty in-memory buffer, with no entry.
#[verifier::external_body]
fn zip_writer_new() -> (z: ZipSink)
    ensures
        zip_entries(z) == Seq::<(Seq<char>, Seq<u8>)>::empty(),
        zip_open(z),
{
    ZipSink { inner: zip::ZipWriter::new(std::io::Cursor::new(Vec::new())) }
}

/// `zip::ZipWriter::start_file` with `FileOptions::default()` set to
/// `CompressionMethod::Deflated`: on success a new entry named `name`,
/// with no data yet, follows the others. It first closes the previous
/// entry, which fails only when that entry passes the 4 GiB limit; on an
/// open writer over memory nothing else fails.
#[verifier::external_body]
fn zip_start_file(z: &mut ZipSink, name: &str) -> (r: Result<(), zip::result::ZipError>)
    ensures
        zip_open(*old(z)) && last_fits(zip_entries(*old(z))) ==> r is Ok,
        r is Ok ==> zip_open(*final(z)) && zip_entries(*final(z)) == zip_entries(*old(z)).push(
            (name@, Seq::<u8>::empty()),
        ),
{
    z.inner.start_file(name, zip::write::FileOptions::default().compression_method(zip::CompressionMethod::Deflated))
}

/// `std::io::Write::write_all` on the writer, once per started entry: on
/// success `data` is the entry's data. It fails only when the entry's
/// data passes 4 GiB or the writer is no longer open.
#[verifier::external_body]
fn zip_write_all(z: &mut ZipSink, data: &[u8]) -> (r: Result<(), std::io::Error>)
    requires
        zip_entries(*old(z)).len() > 0,
        zip_entries(*old(z)).last().1.len() == 0,
    ensures
        zip_open(*old(z)) && zip_fits(data@) ==> r is Ok,
        r is Ok ==> zip_open(*final(z)) && zip_entries(*final(z)) == zip_entries(*old(z)).update(
            zip_entries(*old(z)).len() - 1,
            (zip_entries(*old(z)).last().0, data@),
        ),
{
    std::io::Write::write_all(&mut z.inner, data)
}

/// `zip::ZipWriter::finish`, then `Cursor::into_inner`: on success the
/// bytes of the archive of the entries written. It closes the last
/// entry, which fails only when that entry passes the 4 GiB limit.
#[verifier::external_body]
fn zip_finish(z: &mut ZipSink) -> (r: Result<Vec<u8>, zip::result::ZipError>)
    ensures
        zip_open(*old(z)) && last_fits(zip_entries(*old(z))) ==> r is Ok,
        r matches Ok(b) ==> b@ == zip_archive(zip_entries(*old(z))),
{
    match z.inner.finish() {
        Ok(c) => Ok(c.into_inner()),
        Err(e) => Err(e),
    }
}

/// The `Display` text of a ZIP error.
#[verifier::external_body]
fn zip_error_text(e: &zip::result::ZipError) -> String {
    format!("{}", e)
}

/// The `Display` text of an I/O error.
#[verifier::external_body]
fn io_error_text(e: &std::io::Error) -> String {
    format!("{}", e)
}

/// `what path: reason`.
fn entry_message(what: &str, path: &str, reason: &str) -> (r: String)
    ensures
        r@ == what@ + path@ + ": "@ + reason@,
{
    let mut m = concat2(what, path);
    push_str(&mut m, ": ");
    push_str(&mut m, reason);
    m
}

fn write_zip(parts: &[Part]) -> (r: Result<Vec<u8>, DocxError>)
    ensures
        r matches Ok(b) ==> b@ == zip_archive(part_views(parts@)),
        entries_fit(part_views(parts@)) ==> r is Ok,
        r matches Err(e) ==> e is Pack,
{
    let ghost all = entries_fit(part_views(parts@));
    let mut zip = zip_writer_new();
    let mut i: usize = 0;
    proof {
        assert(part_views(parts@.take(0)) =~= Seq::<(Seq<char>, Seq<u8>)>::empty());
    }
    while i < parts.len()
        invariant
            i <= parts@.len(),
            zip_entries(zip) == part_views(parts@.take(i as int)),
            all == entries_fit(part_views(parts@)),
            all ==> zip_open(zip),
        decreases parts@.len() - i,
    {
        let part = &parts[i];
        proof {
            if all && i > 0 {
                assert(zip_entries(zip).last() == part_views(parts@)[i - 1]);
                assert(zip_fits(part_views(parts@)[i - 1].1));
            }
        }
        match zip_start_file(&mut zip, part.path.as_str()) {
            Ok(()) => {},
            Err(e) => {
                let t = zip_error_text(&e);
                return Err(DocxError::Pack(entry_message("zip start ", part.path.as_str(), t.as_str())));
            },
        }
        proof {
            if all {
                assert(zip_fits(part_views(parts@)[i as int].1));
                assert(part_views(parts@)[i as int].1 == part.data@);
            }
        }
        match zip_write_all(&mut zip, part.data.as_slice()) {
            Ok(()) => {},
            Err(e) => {
                let t = io_error_text(&e);
                return Err(DocxError::Pack(entry_message("zip write ", part.path.as_str(), t.as_str())));
            },
        }
        proof {
            assert(part_views(parts@.take(i + 1)) =~= part_views(parts@.take(i as int)).push(
                part_view(parts@[i as int]),
            ));
            assert(zip_entries(zip) =~= part_views(parts@.take(i + 1)));
        }
        i = i + 1;
    }
    proof {
        assert(parts@.take(i as int) =~= parts@);
        if all && i > 0 {
            assert(zip_entries(zip).last() == part_views(parts@)[i - 1]);
            assert(zip_fits(part_views(parts@)[i - 1].1));
        }
    }
    match zip_finish(&mut zip) {
        Ok(b) => Ok(b),
        Err(e) => {
            let t = zip_error_text(&e);
            Err(DocxError::Pack(concat2("zip finish: ", t.as_str())))
        },
    }
}

} // verus!
