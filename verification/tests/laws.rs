use stem::docx::parts::doc_props::epoch_to_utc;
use stem::docx::parts::settings::settings_with;
use stem::docx::parts::styles::{apply_overrides, styles, styles_with_overrides, Style};
use stem::docx2::xml::escape_text;
use stem::docx::xml::XmlBuf;
use stem::docx2::emit::ctx::StyleOverride;
use stem::docx2::emit::toc::parse_levels;
use stem::html::{format_col_letter, parse_cell_address};

fn render(s: Style) -> String {
    let mut x = XmlBuf::new();
    s.render(&mut x);
    x.finish()
}

fn override_for(id: &str) -> StyleOverride {
    StyleOverride {
        id: id.into(),
        before_dxa: None,
        after_dxa: Some(120),
        line_dxa: None,
        align: Some("center".into()),
        keep_next: None,
        keep_lines: None,
        outline_lvl: None,
        contextual_spacing: None,
        border_top: None,
        size_hp: Some(28),
        color: None,
        bold: Some(true),
        italic: None,
        strike: None,
        underline: None,
        font: None,
    }
}

#[test]
fn cell_address_parses_letters_and_row() {
    assert_eq!(parse_cell_address("A1"), Some((0, 0)));
    assert_eq!(parse_cell_address("b12"), Some((1, 11)));
    assert_eq!(parse_cell_address("AA3"), Some((26, 2)));
    assert_eq!(parse_cell_address(""), None);
    assert_eq!(parse_cell_address("12"), None);
    assert_eq!(parse_cell_address("A0"), None);
    assert_eq!(parse_cell_address("A1x"), None);
    assert_eq!(parse_cell_address("Ä1"), None);
}

#[test]
fn column_letters_are_bijective_base_26() {
    assert_eq!(format_col_letter(0), "A");
    assert_eq!(format_col_letter(25), "Z");
    assert_eq!(format_col_letter(26), "AA");
    assert_eq!(format_col_letter(701), "ZZ");
    assert_eq!(format_col_letter(702), "AAA");
    assert_eq!(format_col_letter(u32::MAX), "");
}

#[test]
fn cell_address_round_trips() {
    for (c, r) in [(0u32, 0u32), (25, 9), (26, 99), (701, 4), (16_383, 1_048_575)] {
        let a = format!("{}{}", format_col_letter(c), r + 1);
        assert_eq!(parse_cell_address(&a), Some((c, r)), "{a}");
    }
}

#[test]
fn levels_always_within_one_to_six() {
    for spec in [None, Some("0-9"), Some("9"), Some("5-2"), Some("x-y"), Some("4-")] {
        let (a, b) = parse_levels(spec);
        assert!(1 <= a && a <= b && b <= 6, "{spec:?} -> ({a}, {b})");
    }
}

#[test]
fn day_boundaries_split_into_civil_dates() {
    // The last second of a day and the first of the next.
    assert_eq!(epoch_to_utc(86_399), (1970, 1, 1, 23, 59, 59));
    assert_eq!(epoch_to_utc(86_400), (1970, 1, 2, 0, 0, 0));
    // Leap day in a century year not divisible by 400 does not exist:
    // 2100-02-28 is followed by 2100-03-01.
    assert_eq!(epoch_to_utc(4_107_456_000), (2100, 2, 28, 0, 0, 0));
    assert_eq!(epoch_to_utc(4_107_542_400), (2100, 3, 1, 0, 0, 0));
}

#[test]
fn override_of_another_style_leaves_style_unchanged() {
    let a = render(Style::paragraph("Quote", "Quote"));
    let b = render(apply_overrides(Style::paragraph("Quote", "Quote"), &[override_for("Heading1")]));
    assert_eq!(a, b);
}

#[test]
fn applying_overrides_twice_is_applying_them_once() {
    let ovs = [override_for("Heading1")];
    let once = render(apply_overrides(Style::paragraph("Heading1", "heading 1"), &ovs));
    let twice = render(apply_overrides(apply_overrides(Style::paragraph("Heading1", "heading 1"), &ovs), &ovs));
    assert_eq!(once, twice);
    assert!(once.contains(r#"<w:jc w:val="center"/>"#), "{once}");
}

#[test]
fn overrides_reach_the_styles_part() {
    let s = styles_with_overrides(&[override_for("Heading1")]);
    let start = s.find(r#"w:styleId="Heading1""#).unwrap();
    let end = s[start..].find("</w:style>").unwrap() + start;
    assert!(s[start..end].contains(r#"<w:sz w:val="28"/>"#), "{}", &s[start..end]);
}

fn unescape(t: &str) -> String {
    t.replace("&lt;", "<").replace("&gt;", ">").replace("&amp;", "&")
}

#[test]
fn escaped_text_reads_back() {
    for s in ["a<b>&c", "&lt;", "plain", "", "&&<<>>"] {
        assert_eq!(unescape(&escape_text(s)), s);
    }
    assert_eq!(escape_text("fish & chips"), "fish &amp; chips");
    assert_eq!(escape_text("no markup here"), "no markup here");
    assert_ne!(escape_text("a>b"), "a>b");
}

#[test]
fn even_odd_settings_insert_one_element() {
    let c = r#"<w:characterSpacingControl w:val="doNotCompress"/>"#;
    let plain = settings_with(false);
    let both = settings_with(true);
    assert!(!plain.contains("evenAndOddHeaders"));
    assert_eq!(both, plain.replacen(c, &format!("{c}<w:evenAndOddHeaders/>"), 1));
}

#[test]
fn overrides_of_unknown_styles_change_nothing() {
    assert_eq!(styles_with_overrides(&[]), styles());
    assert_eq!(styles_with_overrides(&[override_for("NoSuchStyle")]), styles());
}

#[test]
fn later_duplicate_override_is_ignored() {
    let mut second = override_for("Heading1");
    second.size_hp = Some(40);
    assert_eq!(
        styles_with_overrides(&[override_for("Heading1"), second]),
        styles_with_overrides(&[override_for("Heading1")])
    );
}

#[test]
fn shadowed_override_anywhere_is_ignored() {
    let mut later = override_for("Heading1");
    later.size_hp = Some(44);
    assert_eq!(
        styles_with_overrides(&[override_for("Heading1"), later, override_for("Title")]),
        styles_with_overrides(&[override_for("Heading1"), override_for("Title")])
    );
}
