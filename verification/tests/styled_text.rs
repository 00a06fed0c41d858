//! The width-tracked styled text and the side-by-side compositor.

use moxdtrkr::sidebyside::SideBySide;
use moxdtrkr::styled::ColouredString;
use moxdtrkr::styled::Style;

#[test]
fn width_counts_characters_from_text() {
    let cs = ColouredString::from_str("hello");
    assert_eq!(cs.len(), 5);
    assert_eq!(cs.as_str(), "hello");
}

#[test]
fn width_adds_when_appending() {
    let mut cs = ColouredString::from_str("abc");
    cs.push_str("de");
    assert_eq!(cs.len(), 5);
    let mut other = ColouredString::from_str("xyz");
    other.push_coloured_string(cs);
    assert_eq!(other.len(), 8);
    assert_eq!(other.to_string(), "xyzabcde");
}

#[test]
fn style_application_never_changes_width() {
    colored::control::set_override(true);
    let plain = ColouredString::from_str("hello");
    let styled = plain
        .apply_style(Style::Bold)
        .apply_style(Style::Red)
        .apply_style(Style::OnCyan)
        .apply_style(Style::Italic);
    assert_eq!(styled.len(), 5);
    let rendered = styled.to_string();
    assert!(rendered.len() > 5, "style markup should add bytes");
    assert!(rendered.contains("hello"));
    assert!(rendered.contains('\u{1b}'), "expected escape codes");
}

#[test]
fn pound_sign_occupies_one_column() {
    let cs = ColouredString::from_str("£5.50");
    assert_eq!(cs.len(), 5);
}

#[test]
fn empty_string_has_zero_width() {
    assert_eq!(ColouredString::new().len(), 0);
    let s = ColouredString::new().apply_style(Style::Green);
    assert_eq!(s.len(), 0);
}

#[test]
fn compose_row_count_is_max_of_sides() {
    let mut left = SideBySide::new(10);
    left.add_line(ColouredString::from_str("one"));
    left.add_line(ColouredString::from_str("two"));
    let mut right = SideBySide::new(5);
    right.add_line(ColouredString::from_str("a"));
    right.add_line(ColouredString::from_str("b"));
    right.add_line(ColouredString::from_str("c"));
    let rows = SideBySide::compose(&left, &right, " | ");
    assert_eq!(rows.len(), 3);
    let rows2 = SideBySide::compose(&right, &left, " | ");
    assert_eq!(rows2.len(), 3);
}

#[test]
fn compose_separator_sits_at_fixed_column() {
    let mut left = SideBySide::new(10);
    left.add_line(ColouredString::from_str("one"));
    left.add_line(ColouredString::from_str("longer"));
    let mut right = SideBySide::new(5);
    right.add_line(ColouredString::from_str("a"));
    right.add_line(ColouredString::from_str("b"));
    right.add_line(ColouredString::from_str("c"));
    let rows = SideBySide::compose(&left, &right, "|");
    assert_eq!(rows[0].to_string(), "one       |a");
    assert_eq!(rows[1].to_string(), "longer    |b");
    assert_eq!(rows[2].to_string(), "          |c");
    for row in rows.iter() {
        assert_eq!(row.to_string().chars().nth(10), Some('|'));
    }
}

#[test]
fn compose_pads_but_never_clips() {
    let mut left = SideBySide::new(4);
    left.add_line(ColouredString::from_str("overlong"));
    let right = SideBySide::new(5);
    let rows = SideBySide::compose(&left, &right, ";");
    assert_eq!(rows[0].to_string(), "overlong;");
}
