use jpeg_sidecar::instant::parse_exif_datetime;
use jpeg_sidecar::instant::parse_iso;
use jpeg_sidecar::instant::render_iso;
use jpeg_sidecar::instant::UtcInstant;

fn instant(
    year: u16,
    month: u8,
    day: u8,
    hour: u8,
    minute: u8,
    second: u8,
    nanos: u32,
) -> UtcInstant {
    UtcInstant::new(year, month, day, hour, minute, second, nanos).unwrap()
}

#[test]
fn capture_pattern_parses_to_utc_instant() {
    let t = parse_exif_datetime("2020:08:13 10:57:07").unwrap();
    assert_eq!(t, instant(2020, 8, 13, 10, 57, 7, 0));
}

#[test]
fn capture_pattern_mismatch_yields_none() {
    assert!(parse_exif_datetime("").is_none());
    assert!(parse_exif_datetime("not a date").is_none());
    assert!(parse_exif_datetime("2020-08-13 10:57:07").is_none());
    assert!(parse_exif_datetime("2020:08:13T10:57:07").is_none());
    assert!(parse_exif_datetime("2020:08:13 10:57:07 ").is_none());
    assert!(parse_exif_datetime("2020:13:13 10:57:07").is_none());
    assert!(parse_exif_datetime("2020:00:13 10:57:07").is_none());
    assert!(parse_exif_datetime("2020:02:30 10:57:07").is_none());
    assert!(parse_exif_datetime("2020:08:13 24:57:07").is_none());
    assert!(parse_exif_datetime("2020:08:13 10:60:07").is_none());
    assert!(parse_exif_datetime("2020:08:13 10:57:60").is_none());
}

#[test]
fn leap_year_days_accepted_and_refused() {
    assert!(parse_exif_datetime("2020:02:29 00:00:00").is_some());
    assert!(parse_exif_datetime("2019:02:29 00:00:00").is_none());
    assert!(parse_exif_datetime("2000:02:29 00:00:00").is_some());
    assert!(parse_exif_datetime("1900:02:29 00:00:00").is_none());
}

#[test]
fn iso_rendering_exact() {
    let t = instant(2020, 8, 13, 10, 57, 7, 0);
    assert_eq!(render_iso(&t), "2020-08-13T10:57:07Z");
    let with_nanos = instant(2020, 8, 13, 10, 57, 7, 123456789);
    assert_eq!(render_iso(&with_nanos), "2020-08-13T10:57:07.123456789Z");
    let early = instant(7, 1, 2, 3, 4, 5, 0);
    assert_eq!(render_iso(&early), "0007-01-02T03:04:05Z");
}

#[test]
fn iso_parse_inverts_rendering() {
    let t = instant(2020, 8, 13, 10, 57, 7, 0);
    assert_eq!(parse_iso(&render_iso(&t)).unwrap(), t);
    let with_nanos = instant(1999, 12, 31, 23, 59, 59, 1);
    assert_eq!(parse_iso(&render_iso(&with_nanos)).unwrap(), with_nanos);
}

#[test]
fn iso_parse_refuses_other_text() {
    assert!(parse_iso("").is_none());
    assert!(parse_iso("2020-08-13T10:57:07").is_none());
    assert!(parse_iso("2020:08:13 10:57:07Z").is_none());
    assert!(parse_iso("2020-08-13T10:57:07.000000000Z").is_none());
    assert!(parse_iso("2020-13-13T10:57:07Z").is_none());
}

#[test]
fn invalid_calendar_fields_refused() {
    assert!(UtcInstant::new(2020, 2, 30, 0, 0, 0, 0).is_none());
    assert!(UtcInstant::new(2020, 0, 1, 0, 0, 0, 0).is_none());
    assert!(UtcInstant::new(2020, 1, 1, 24, 0, 0, 0).is_none());
    assert!(UtcInstant::new(2020, 1, 1, 0, 0, 0, 1_000_000_000).is_none());
    assert!(UtcInstant::new(10000, 1, 1, 0, 0, 0, 0).is_none());
    assert!(UtcInstant::new(9999, 12, 31, 23, 59, 59, 999_999_999).is_some());
}
