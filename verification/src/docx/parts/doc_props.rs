//! `docProps/core.xml` and `docProps/app.xml` — document metadata.
//!
//! These are mostly cosmetic; Word reads them for the file
//! information dialog and Explorer file properties. We emit minimal
//! valid versions with empty title/subject/creator and an ISO 8601
//! timestamp for created/modified. The timestamp is a parameter so the
//! parts are a function of their inputs; [`now_w3cdtf`] reads the clock.

use vstd::prelude::*;

use crate::docx::xml::{
    attr1, attr_views, element, empty_tag, group_concat, no_attrs, text_elem, xml_declaration,
    XmlBuf,
};
use crate::text::{dec, push_char, push_str, u64_to_string};

verus! {

broadcast use group_concat;

// ------------------------------------------------------------------
// core.xml and app.xml
// ------------------------------------------------------------------

/// The namespace declarations of `cp:coreProperties`.
pub open spec fn core_attrs() -> Seq<(Seq<char>, Seq<char>)> {
    seq![
        ("xmlns:cp"@, "http://schemas.openxmlformats.org/package/2006/metadata/core-properties"@),
        ("xmlns:dc"@, "http://purl.org/dc/elements/1.1/"@),
        ("xmlns:dcterms"@, "http://purl.org/dc/terms/"@),
        ("xmlns:dcmitype"@, "http://purl.org/dc/dcmitype/"@),
        ("xmlns:xsi"@, "http://www.w3.org/2001/XMLSchema-instance"@),
    ]
}

/// A `dcterms:` date element carrying the W3CDTF type.
pub open spec fn w3cdtf_elem(name: Seq<char>, iso: Seq<char>) -> Seq<char> {
    text_elem(name, attr1("xsi:type"@, "dcterms:W3CDTF"@), iso, false)
}

/// The whole `docProps/core.xml`, stamped `iso` as created and modified.
pub open spec fn core_xml(iso: Seq<char>) -> Seq<char> {
    xml_declaration() + element(
        "cp:coreProperties"@,
        core_attrs(),
        empty_tag("dc:title"@, no_attrs()) + empty_tag("dc:subject"@, no_attrs()) + empty_tag(
            "dc:creator"@,
            no_attrs(),
        ) + empty_tag("cp:keywords"@, no_attrs()) + empty_tag("dc:description"@, no_attrs())
            + empty_tag("cp:lastModifiedBy"@, no_attrs()) + text_elem(
            "cp:revision"@,
            no_attrs(),
            "1"@,
            false,
        ) + w3cdtf_elem("dcterms:created"@, iso) + w3cdtf_elem("dcterms:modified"@, iso),
    )
}

/// Build `docProps/core.xml` with the given ISO 8601 timestamp.
///
/// All fields default to empty so the file is unauthored.
pub fn core_props(iso8601: &str) -> (s: String)
    ensures
        s@ == core_xml(iso8601@),
{
    let mut x = XmlBuf::new();
    x.xml_decl();
    let attrs: &[(&str, &str)] = &[
        ("xmlns:cp", "http://schemas.openxmlformats.org/package/2006/metadata/core-properties"),
        ("xmlns:dc", "http://purl.org/dc/elements/1.1/"),
        ("xmlns:dcterms", "http://purl.org/dc/terms/"),
        ("xmlns:dcmitype", "http://purl.org/dc/dcmitype/"),
        ("xmlns:xsi", "http://www.w3.org/2001/XMLSchema-instance"),
    ];
    proof {
        assert(attr_views(attrs@) =~= core_attrs());
    }
    x.open("cp:coreProperties", attrs);
    let ghost s1 = x@;
    x.empty0("dc:title");
    x.empty0("dc:subject");
    x.empty0("dc:creator");
    x.empty0("cp:keywords");
    x.empty0("dc:description");
    x.empty0("cp:lastModifiedBy");
    x.text0("cp:revision", "1", false);
    x.text1("dcterms:created", "xsi:type", "dcterms:W3CDTF", iso8601, false);
    x.text1("dcterms:modified", "xsi:type", "dcterms:W3CDTF", iso8601, false);
    proof {
        assert(x@ =~= s1 + (empty_tag("dc:title"@, no_attrs()) + empty_tag("dc:subject"@, no_attrs())
            + empty_tag("dc:creator"@, no_attrs()) + empty_tag("cp:keywords"@, no_attrs())
            + empty_tag("dc:description"@, no_attrs()) + empty_tag(
            "cp:lastModifiedBy"@,
            no_attrs(),
        ) + text_elem("cp:revision"@, no_attrs(), "1"@, false) + w3cdtf_elem(
            "dcterms:created"@,
            iso8601@,
        ) + w3cdtf_elem("dcterms:modified"@, iso8601@)));
    }
    x.close("cp:coreProperties");
    x.finish()
}

/// The whole `docProps/app.xml`.
pub open spec fn app_xml() -> Seq<char> {
    xml_declaration() + element(
        "Properties"@,
        attr1(
            "xmlns"@,
            "http://schemas.openxmlformats.org/officeDocument/2006/extended-properties"@,
        ),
        text_elem("Application"@, no_attrs(), "Stem"@, false) + text_elem(
            "DocSecurity"@,
            no_attrs(),
            "0"@,
            false,
        ) + text_elem("ScaleCrop"@, no_attrs(), "false"@, false) + text_elem(
            "SharedDoc"@,
            no_attrs(),
            "false"@,
            false,
        ) + text_elem("HyperlinksChanged"@, no_attrs(), "false"@, false) + text_elem(
            "LinksUpToDate"@,
            no_attrs(),
            "false"@,
            false,
        ),
    )
}

/// Build `docProps/app.xml` — extended properties. We emit only the
/// fields Word actually displays in its document-info dialog;
/// counts (pages, words, lines) default to zero and Word recomputes
/// them on first open.
pub fn app() -> (s: String)
    ensures
        s@ == app_xml(),
{
    let mut x = XmlBuf::new();
    x.xml_decl();
    x.open1(
        "Properties",
        "xmlns",
        "http://schemas.openxmlformats.org/officeDocument/2006/extended-properties",
    );
    let ghost s1 = x@;
    x.text0("Application", "Stem", false);
    x.text0("DocSecurity", "0", false);
    x.text0("ScaleCrop", "false", false);
    x.text0("SharedDoc", "false", false);
    x.text0("HyperlinksChanged", "false", false);
    x.text0("LinksUpToDate", "false", false);
    proof {
        assert(x@ =~= s1 + (text_elem("Application"@, no_attrs(), "Stem"@, false) + text_elem(
            "DocSecurity"@,
            no_attrs(),
            "0"@,
            false,
        ) + text_elem("ScaleCrop"@, no_attrs(), "false"@, false) + text_elem(
            "SharedDoc"@,
            no_attrs(),
            "false"@,
            false,
        ) + text_elem("HyperlinksChanged"@, no_attrs(), "false"@, false) + text_elem(
            "LinksUpToDate"@,
            no_attrs(),
            "false"@,
            false,
        )));
    }
    x.close("Properties");
    x.finish()
}

// ------------------------------------------------------------------
// The proleptic Gregorian calendar
// ------------------------------------------------------------------

/// Leap years: every fourth, except centuries not divisible by 400.
pub open spec fn is_leap(y: int) -> bool {
    (y % 4 == 0 && y % 100 != 0) || y % 400 == 0
}

/// Days in month `m` (1..=12) of year `y`.
pub open spec fn days_in_month(y: int, m: int) -> int {
    if m == 2 {
        if is_leap(y) {
            29
        } else {
            28
        }
    } else if m == 4 || m == 6 || m == 9 || m == 11 {
        30
    } else {
        31
    }
}

/// `y-m-d` names a day of the calendar.
pub open spec fn valid_date(y: int, m: int, d: int) -> bool {
    1 <= m <= 12 && 1 <= d <= days_in_month(y, m)
}

/// Days from 1970-01-01 to `y-m-d`: 365 per year plus the leap days,
/// counted in years that start in March so that February comes last.
pub open spec fn days_from_civil(y: int, m: int, d: int) -> int {
    let yy = if m <= 2 {
        y - 1
    } else {
        y
    };
    let mp = if m > 2 {
        m - 3
    } else {
        m + 9
    };
    365 * yy + yy / 4 - yy / 100 + yy / 400 + (153 * mp + 2) / 5 + d - 1 - 719468
}

/// The date `days` days after 1970-01-01 (Howard Hinnant's
/// `civil_from_days`; see [`lemma_civil_from_days`] for what it means).
pub open spec fn civil_from_days(days: int) -> (int, int, int) {
    let z = days + 719468;
    let era = z / 146097;
    let doe = z - era * 146097;
    let yoe = (doe - doe / 1460 + doe / 36524 - doe / 146096) / 365;
    let doy = doe - (365 * yoe + yoe / 4 - yoe / 100);
    let mp = (5 * doy + 2) / 153;
    let d = doy - (153 * mp + 2) / 5 + 1;
    let m = if mp < 10 {
        mp + 3
    } else {
        mp - 9
    };
    let y = yoe + era * 400;
    (
        if m <= 2 {
            y + 1
        } else {
            y
        },
        m,
        d,
    )
}

/// `civil_from_days` names a real calendar day, and counting days back
/// from it gives the input: it is the inverse of `days_from_civil`.
#[verifier::rlimit(50)]
#[verifier::spinoff_prover]
pub proof fn lemma_civil_from_days(days: int)
    ensures
        valid_date(civil_from_days(days).0, civil_from_days(days).1, civil_from_days(days).2),
        days_from_civil(civil_from_days(days).0, civil_from_days(days).1, civil_from_days(days).2)
            == days,
{
}

/// Calendar date and time of day `secs` seconds after
/// 1970-01-01T00:00:00Z: (year, month, day, hour, minute, second).
pub open spec fn utc_of(secs: int) -> (int, int, int, int, int, int) {
    let (y, m, d) = civil_from_days(secs / 86400);
    let sod = secs % 86400;
    (y, m, d, sod / 3600, (sod / 60) % 60, sod % 60)
}

/// The time of day splits the seconds past midnight exactly.
pub proof fn lemma_time_of_day(secs: int)
    ensures
        0 <= utc_of(secs).3 < 24,
        0 <= utc_of(secs).4 < 60,
        0 <= utc_of(secs).5 < 60,
        (secs / 86400) * 86400 + utc_of(secs).3 * 3600 + utc_of(secs).4 * 60 + utc_of(secs).5
            == secs,
{
}

const SHIFT_DAYS: i128 = 140737488355328;

const SHIFT_ERAS: i128 = 1073741824;

/// UTC calendar fields of a Unix timestamp. The year is truncated to
/// `i32` as an `as` cast does; every year within ±2^31 comes out whole.
pub fn epoch_to_utc(secs: i64) -> (r: (i32, u32, u32, u32, u32, u32))
    ensures
        r.0 == utc_of(secs as int).0 as i32,
        r.1 == utc_of(secs as int).1,
        r.2 == utc_of(secs as int).2,
        r.3 == utc_of(secs as int).3,
        r.4 == utc_of(secs as int).4,
        r.5 == utc_of(secs as int).5,
{
    // Floor division by a day, done on a value shifted to be
    // non-negative by a whole number of days.
    let shifted: u128 = (secs as i128 + 86400 * SHIFT_DAYS) as u128;
    let q: u128 = shifted / 86400;
    let seconds_in_day: u128 = shifted % 86400;
    let days: i128 = q as i128 - SHIFT_DAYS;
    proof {
        vstd::arithmetic::div_mod::lemma_fundamental_div_mod_converse(
            secs as int,
            86400,
            days as int,
            seconds_in_day as int,
        );
    }
    let hh = seconds_in_day / 3600;
    let mm = (seconds_in_day / 60) % 60;
    let ss = seconds_in_day % 60;

    // Howard Hinnant, "civil from days".
    let z: i128 = days + 719468;
    let zs: u128 = (z + 146097 * SHIFT_ERAS) as u128;
    let era: i128 = (zs / 146097) as i128 - SHIFT_ERAS;
    let doe_i: i128 = z - era * 146097;
    proof {
        vstd::arithmetic::div_mod::lemma_fundamental_div_mod_converse(
            z as int,
            146097,
            era as int,
            doe_i as int,
        );
    }
    let doe: u128 = doe_i as u128;
    let yoe: u128 = (doe - doe / 1460 + doe / 36524 - doe / 146096) / 365;
    let y: i128 = yoe as i128 + era * 400;
    let doy: u128 = doe - (365 * yoe + yoe / 4 - yoe / 100);
    let mp: u128 = (5 * doy + 2) / 153;
    let d: u128 = doy - (153 * mp + 2) / 5 + 1;
    let m: u128 = if mp < 10 {
        mp + 3
    } else {
        mp - 9
    };
    let y: i128 = if m <= 2 {
        y + 1
    } else {
        y
    };
    (y as i32, m as u32, d as u32, hh as u32, mm as u32, ss as u32)
}

// ------------------------------------------------------------------
// W3CDTF timestamps
// ------------------------------------------------------------------

/// `n` zeros.
pub open spec fn zeros(n: nat) -> Seq<char> {
    Seq::new(n, |i: int| '0')
}

/// `n` in decimal, left-padded with zeros to at least `w` digits.
pub open spec fn pad(n: nat, w: nat) -> Seq<char> {
    if dec(n).len() < w {
        zeros((w - dec(n).len()) as nat) + dec(n)
    } else {
        dec(n)
    }
}

/// `v` in decimal padded to width `w`, a minus sign counting toward the
/// width (as `{:0w}` formats it).
pub open spec fn pad_signed(v: int, w: nat) -> Seq<char> {
    if v < 0 {
        seq!['-'] + pad((-v) as nat, if w > 0 {
            (w - 1) as nat
        } else {
            0
        })
    } else {
        pad(v as nat, w)
    }
}

/// `YYYY-MM-DDThh:mm:ssZ` for `secs` seconds after the epoch.
pub open spec fn w3cdtf_of(secs: int) -> Seq<char> {
    let t = utc_of(secs);
    pad_signed((t.0 as i32) as int, 4) + seq!['-'] + pad(t.1 as nat, 2) + seq!['-'] + pad(
        t.2 as nat,
        2,
    ) + seq!['T'] + pad(t.3 as nat, 2) + seq![':'] + pad(t.4 as nat, 2) + seq![':'] + pad(
        t.5 as nat,
        2,
    ) + seq!['Z']
}

fn push_padded(out: &mut String, n: u64, w: usize)
    ensures
        final(out)@ == old(out)@ + pad(n as nat, w as nat),
{
    let digits = u64_to_string(n);
    let len = digits.unicode_len();
    let ghost start = out@;
    if len < w {
        let mut i: usize = 0;
        while i < w - len
            invariant
                i <= w - len,
                len == dec(n as nat).len(),
                len < w,
                out@ == start + zeros(i as nat),
            decreases w - len - i,
        {
            push_char(out, '0');
            proof {
                assert(zeros(i as nat).push('0') =~= zeros((i + 1) as nat));
            }
            i = i + 1;
        }
    }
    push_str(out, digits.as_str());
    proof {
        assert(out@ =~= start + pad(n as nat, w as nat));
    }
}

fn push_padded_signed(out: &mut String, v: i32, w: usize)
    requires
        w >= 1,
    ensures
        final(out)@ == old(out)@ + pad_signed(v as int, w as nat),
{
    if v < 0 {
        push_char(out, '-');
        let mag: u64 = (0 - (v as i64)) as u64;
        push_padded(out, mag, w - 1);
        proof {
            assert(final(out)@ =~= old(out)@ + pad_signed(v as int, w as nat));
        }
    } else {
        push_padded(out, v as u64, w);
    }
}

/// The W3CDTF timestamp (`YYYY-MM-DDThh:mm:ssZ`, no fractional seconds,
/// trailing `Z` zone marker) of a Unix timestamp.
pub fn w3cdtf_from_epoch(secs: i64) -> (s: String)
    ensures
        s@ == w3cdtf_of(secs as int),
{
    let (y, m, d, hh, mm, ss) = epoch_to_utc(secs);
    let mut out = String::new();
    push_padded_signed(&mut out, y, 4);
    push_char(&mut out, '-');
    push_padded(&mut out, m as u64, 2);
    push_char(&mut out, '-');
    push_padded(&mut out, d as u64, 2);
    push_char(&mut out, 'T');
    push_padded(&mut out, hh as u64, 2);
    push_char(&mut out, ':');
    push_padded(&mut out, mm as u64, 2);
    push_char(&mut out, ':');
    push_padded(&mut out, ss as u64, 2);
    push_char(&mut out, 'Z');
    proof {
        lemma_civil_from_days(secs as int / 86400);
        assert(out@ =~= w3cdtf_of(secs as int));
    }
    out
}

// ------------------------------------------------------------------
// The clock
// ------------------------------------------------------------------

#[verifier::external_type_specification]
#[verifier::external_body]
pub struct ExSystemTime(std::time::SystemTime);

#[verifier::external_type_specification]
#[verifier::external_body]
pub struct ExSystemTimeError(std::time::SystemTimeError);

/// `SystemTime::now`: the machine's clock. Nothing is stated of the
/// value: it is the time of the call.
#[verifier::external_body]
fn system_now() -> std::time::SystemTime {
    std::time::SystemTime::now()
}

/// `SystemTime::duration_since(UNIX_EPOCH)`: fails for a clock set
/// before 1970. Nothing is stated of the duration.
#[verifier::external_body]
fn since_unix_epoch(t: &std::time::SystemTime) -> Result<
    std::time::Duration,
    std::time::SystemTimeError,
> {
    t.duration_since(std::time::UNIX_EPOCH)
}

/// `Duration::as_secs`: whole seconds of a duration. Nothing is stated:
/// the duration is opaque here.
#[verifier::external_body]
fn whole_secs(d: &std::time::Duration) -> u64 {
    d.as_secs()
}

/// Current UTC time in the OOXML-required W3CDTF subset (no
/// fractional seconds, trailing `Z` zone marker). A clock before the
/// epoch reads as the epoch.
pub fn now_w3cdtf() -> (s: String)
    ensures
        exists|secs: u64| s@ == #[trigger] w3cdtf_of((secs as i64) as int),
{
    let now = system_now();
    let secs: u64 = match since_unix_epoch(&now) {
        Ok(d) => whole_secs(&d),
        Err(_) => 0,
    };
    let s = w3cdtf_from_epoch(secs as i64);
    proof {
        assert(s@ == w3cdtf_of((secs as i64) as int));
    }
    s
}

} // verus!
