use rail_gtfs::text::chars_of;
use rail_gtfs::text::owned_field;
use rail_gtfs::text::contains;
use rail_gtfs::text::decimal_string;
use rail_gtfs::text::field;
use rail_gtfs::text::field_or;
use rail_gtfs::text::is_blank_char;
use rail_gtfs::text::join;
use rail_gtfs::text::same_text;
use rail_gtfs::text::starts_with_char;
use rail_gtfs::text::trim;
use rail_gtfs::text::trimmed_field;
use rail_gtfs::time::format_clock;
use rail_gtfs::time::format_time;

#[test]
fn four_digit_time_is_hours_and_minutes() {
    assert_eq!(format_time("0930"), "09:30:00");
    assert_eq!(format_time("2359"), "23:59:00");
    assert_eq!(format_time("0000"), "00:00:00");
}

#[test]
fn short_time_is_midnight() {
    assert_eq!(format_time(""), "00:00:00");
    assert_eq!(format_time("093"), "00:00:00");
    assert_eq!(format_time("9"), "00:00:00");
    assert_eq!(format_time("     "), "00:00:00");
    assert_eq!(format_time("12H  "), "00:00:00");
}

#[test]
fn time_ignores_what_is_not_numeric() {
    assert_eq!(format_time("0912H"), "09:12:00");
    assert_eq!(format_time(" 0912"), "09:12:00");
    assert_eq!(format_time("09:12"), "09:12:00");
    assert_eq!(format_time("0 9 1 2"), "09:12:00");
}

#[test]
fn time_uses_the_first_four_digits() {
    assert_eq!(format_time("09301"), "09:30:00");
    assert_eq!(format_time("123456"), "12:34:00");
}

#[test]
fn time_keeps_numeric_characters_beyond_ascii() {
    assert_eq!(format_time("\u{0660}\u{0669}\u{0663}\u{0660}"), "\u{0660}\u{0669}:\u{0663}\u{0660}:00");
    assert_eq!(format_time("\u{0660}930"), "\u{0660}9:30:00");
}

#[test]
fn clock_of_digits() {
    assert_eq!(format_clock("0930"), "09:30:00");
    assert_eq!(format_clock("093"), "00:00:00");
    assert_eq!(format_clock(""), "00:00:00");
    assert_eq!(format_clock("123456"), "12:34:00");
}

#[test]
fn trim_removes_surrounding_white_space() {
    assert_eq!(trim("  CREWE  "), "CREWE");
    assert_eq!(trim("CREWE"), "CREWE");
    assert_eq!(trim("   "), "");
    assert_eq!(trim(""), "");
    assert_eq!(trim("\t LONDON EUSTON \r\n"), "LONDON EUSTON");
    assert_eq!(trim("\u{00a0}\u{3000}A B\u{2003}\u{0085}"), "A B");
}

#[test]
fn trim_agrees_with_std_on_every_white_space_character() {
    for code in 0u32..0x11_0000 {
        if let Some(c) = char::from_u32(code) {
            assert_eq!(is_blank_char(c), c.is_whitespace(), "U+{:04X}", code);
        }
    }
}

#[test]
fn field_needs_the_whole_column() {
    assert_eq!(field("ABCDEF", 2, 4), Some("CD"));
    assert_eq!(field("ABCDEF", 0, 6), Some("ABCDEF"));
    assert_eq!(field("ABCDEF", 6, 6), Some(""));
    assert_eq!(field("ABCDEF", 4, 7), None);
    assert_eq!(field("ABCDEF", 7, 9), None);
    assert_eq!(field("ABCDEF", 4, 2), None);
}

#[test]
fn field_counts_characters() {
    assert_eq!(field("A\u{00e9}CDEF", 1, 3), Some("\u{00e9}C"));
    assert_eq!(field("\u{00e9}\u{00e9}", 1, 3), None);
}

#[test]
fn field_or_falls_back() {
    assert_eq!(field_or("ABCDEF", 2, 4, "zz"), "CD");
    assert_eq!(field_or("ABCDEF", 4, 8, "zz"), "zz");
    assert_eq!(owned_field("ABCDEF", 1, 3, ""), "BC");
    assert_eq!(owned_field("ABCDEF", 5, 7, "P"), "P");
    assert_eq!(trimmed_field("A  B  ", 1, 6, ""), "B");
    assert_eq!(trimmed_field("A", 1, 6, " NR "), "NR");
}

#[test]
fn contains_finds_runs() {
    assert!(contains("LONDON EUSTON", "EUSTON"));
    assert!(contains("LONDON EUSTON", "LONDON"));
    assert!(contains("LONDON EUSTON", "N E"));
    assert!(contains("LONDON EUSTON", ""));
    assert!(contains("", ""));
    assert!(contains("EUSTON", "EUSTON"));
    assert!(!contains("LONDON EUSTON", "EUSTONS"));
    assert!(!contains("EUSTO", "EUSTON"));
    assert!(!contains("", "E"));
    assert!(!contains("London Euston", "EUSTON"));
}

#[test]
fn same_text_compares_characters() {
    assert!(same_text("", ""));
    assert!(same_text("0000", "0000"));
    assert!(!same_text("0000", "0001"));
    assert!(!same_text("0000", "000"));
    assert!(!same_text("C", "c"));
}

#[test]
fn starts_with_char_looks_at_the_first_character() {
    assert!(starts_with_char("ABC", 'A'));
    assert!(!starts_with_char("BAC", 'A'));
    assert!(!starts_with_char("", 'A'));
}

#[test]
fn decimal_string_writes_numerals() {
    assert_eq!(decimal_string(0), "0");
    assert_eq!(decimal_string(7), "7");
    assert_eq!(decimal_string(10), "10");
    assert_eq!(decimal_string(109), "109");
    assert_eq!(decimal_string(12345), "12345");
    assert_eq!(decimal_string(u64::MAX), "18446744073709551615");
}

#[test]
fn join_and_chars() {
    assert_eq!(join("20", "250101"), "20250101");
    assert_eq!(join("", ""), "");
    assert_eq!(chars_of("a\u{00e9}b"), vec!['a', '\u{00e9}', 'b']);
}
