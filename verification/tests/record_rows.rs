use noa_app::civil::civil_from_unix_secs;
use noa_app::record_view::{not_persisted_notice_row, separator_row, stamp, AnnotationRow};

fn text_of(row: &AnnotationRow) -> String {
    row.cells.iter().map(|cell| cell.text.as_str()).collect()
}

#[test]
fn the_separator_names_the_time_it_was_saved() {
    // 2023-11-14 22:13:20 UTC.
    let row = separator_row(1_700_000_000, 0, 80);
    let text = text_of(&row);
    assert!(text.contains("2023-11-14 22:13"), "{text:?}");
    assert!(text.contains("record"), "{text:?}");
    assert!(text.contains("live below"), "{text:?}");
}

#[test]
fn the_separator_honors_the_local_utc_offset() {
    let utc = text_of(&separator_row(1_700_000_000, 0, 80));
    let jst = text_of(&separator_row(1_700_000_000, 9 * 3600, 80));
    assert!(utc.contains("22:13"), "{utc:?}");
    assert!(jst.contains("2023-11-15 07:13"), "{jst:?}");
}

#[test]
fn annotation_rows_fill_exactly_one_grid_width() {
    for cols in [8u16, 40, 80, 200] {
        assert_eq!(separator_row(0, 0, cols).cells.len(), usize::from(cols));
        assert_eq!(not_persisted_notice_row(cols).cells.len(), usize::from(cols));
    }
}

#[test]
fn an_annotation_never_soft_wraps() {
    assert!(!separator_row(0, 0, 20).wrapped);
    assert!(!not_persisted_notice_row(20).wrapped);
}

#[test]
fn a_narrow_pane_truncates_rather_than_overflowing() {
    let row = not_persisted_notice_row(10);
    assert_eq!(row.cells.len(), 10);
    let text = text_of(&row);
    assert!(text.starts_with("layout"), "{text:?}");
}

#[test]
fn the_notice_names_the_key_that_changes_the_answer() {
    let text = text_of(&not_persisted_notice_row(120));
    assert!(
        text.contains("scrollback-persist = tail"),
        "the notice is only useful if it says what to do: {text:?}"
    );
}

#[test]
fn annotations_are_faint_so_they_read_as_chrome_not_output() {
    let row = separator_row(0, 0, 40);
    assert!(row.cells[0].flags.faint);
}

#[test]
fn the_separator_is_ruled_evenly_around_its_label() {
    let text = text_of(&separator_row(0, 0, 60));
    assert!(text.starts_with('\u{2500}'), "{text:?}");
    assert!(text.ends_with('\u{2500}'), "{text:?}");
    assert!(text.contains(" record \u{b7} saved 1970-01-01 00:00 \u{b7} live below "), "{text:?}");
    assert_eq!(text.chars().count(), 60);
}

#[test]
fn stamps_pad_every_field_and_handle_years_before_the_epoch() {
    assert_eq!(stamp(0, 0), "1970-01-01 00:00");
    assert_eq!(stamp(0, -1), "1969-12-31 23:59");
    assert_eq!(stamp(951_782_400, 0), "2000-02-29 00:00");
    // u64 seconds past i64::MAX read as negative (two's complement).
    assert_eq!(stamp(u64::MAX, 0), "1969-12-31 23:59");
    // The earliest representable instant, far before year 1.
    assert_eq!(stamp(0, i64::MIN), "-292277022657-01-27 08:29");
    assert_eq!(stamp(0, -62_135_596_800 - 86_400 * 366), "0000-01-01 00:00");
    assert_eq!(stamp(0, -62_135_596_800 - 86_400 * 731), "-001-01-01 00:00");
}

#[test]
fn civil_time_decomposes_epoch_seconds() {
    let c = civil_from_unix_secs(1_700_000_000);
    assert_eq!((c.year, c.month, c.day, c.hour, c.minute, c.second), (2023, 11, 14, 22, 13, 20));
    let c = civil_from_unix_secs(-1);
    assert_eq!((c.year, c.month, c.day, c.hour, c.minute, c.second), (1969, 12, 31, 23, 59, 59));
    let c = civil_from_unix_secs(i64::MAX);
    assert_eq!((c.year, c.month, c.day, c.hour, c.minute, c.second), (292277026596, 12, 4, 15, 30, 7));
    let c = civil_from_unix_secs(4_107_542_400);
    assert_eq!((c.year, c.month, c.day), (2100, 3, 1), "2100 is not a leap year");
}
