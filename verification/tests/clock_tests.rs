use martijn_cli::clock::{decimal_text, format_compact_timestamp, format_report_timestamp, UtcParts};
use martijn_cli::login::non_empty_string;

fn parts(year: i32, month: u8, day: u8, hour: u8, minute: u8, second: u8) -> UtcParts {
    UtcParts { year, month, day, hour, minute, second }
}

#[test]
fn compact_timestamp_pads_every_field() {
    assert_eq!(format_compact_timestamp(&parts(2026, 4, 24, 7, 23, 48)), "20260424-072348");
    assert_eq!(format_compact_timestamp(&parts(987, 1, 2, 3, 4, 5)), "09870102-030405");
}

#[test]
fn report_timestamp_reads_as_date_time_and_zone() {
    assert_eq!(format_report_timestamp(&parts(2026, 12, 31, 23, 59, 1)), "2026-12-31 23:59 UTC");
    assert_eq!(format_report_timestamp(&parts(-44, 3, 15, 12, 0, 0)), "-0044-03-15 12:00 UTC");
}

#[test]
fn counts_print_in_decimal() {
    assert_eq!(decimal_text(0), "0");
    assert_eq!(decimal_text(7), "7");
    assert_eq!(decimal_text(1204), "1204");
}

#[test]
fn non_empty_strings_are_trimmed() {
    assert_eq!(non_empty_string("  abc "), Some(String::from("abc")));
    assert_eq!(non_empty_string("\t "), None);
}
