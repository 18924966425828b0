//! The file-name convention: stamps, canonical names, derived names.

use geoip_service::names;
use geoip_service::time::UtcTime;

fn t(year: u16, month: u8, day: u8, hour: u8, minute: u8, second: u8) -> UtcTime {
    UtcTime::make(year, month, day, hour, minute, second).expect("valid instant")
}

#[test]
fn stamp_formats_zero_padded() {
    assert_eq!(t(2024, 1, 1, 0, 0, 0).format_stamp(), b"20240101000000".to_vec());
    assert_eq!(t(987, 12, 31, 23, 59, 59).format_stamp(), b"09871231235959".to_vec());
}

#[test]
fn stamp_parses_back() {
    let stamp = b"20240401123456";
    let parsed = UtcTime::parse_stamp_bytes(stamp).expect("parses");
    assert_eq!(parsed, t(2024, 4, 1, 12, 34, 56));
}

#[test]
fn stamp_round_trip() {
    let instant = t(2024, 2, 29, 6, 7, 8);
    let parsed = UtcTime::parse_stamp_bytes(&instant.format_stamp()).expect("parses");
    assert_eq!(parsed, instant);
}

#[test]
fn stamp_rejects_invalid_calendar_dates() {
    assert!(UtcTime::parse_stamp_bytes(b"20230229000000").is_none()); // not a leap year
    assert!(UtcTime::parse_stamp_bytes(b"20241301000000").is_none()); // month 13
    assert!(UtcTime::parse_stamp_bytes(b"20240431000000").is_none()); // April 31st
    assert!(UtcTime::parse_stamp_bytes(b"20240101240000").is_none()); // hour 24
    assert!(UtcTime::parse_stamp_bytes(b"2024010100000").is_none()); // 13 bytes
    assert!(UtcTime::parse_stamp_bytes(b"2024010100000a").is_none()); // not a digit
}

#[test]
fn leap_century_rules() {
    assert!(UtcTime::parse_stamp_bytes(b"20000229000000").is_some()); // 400-year rule
    assert!(UtcTime::parse_stamp_bytes(b"19000229000000").is_none()); // 100-year rule
}

#[test]
fn canonical_name_embeds_stamp() {
    let name = names::format_archive_name(b"GeoLite2-City", &t(2024, 1, 1, 0, 0, 0));
    assert_eq!(name, b"GeoLite2-City-20240101000000.tar.gz".to_vec());
}

#[test]
fn archive_name_round_trip() {
    let mtime = t(2024, 4, 1, 0, 0, 0);
    let name = names::format_archive_name(b"GeoLite2-ASN", &mtime);
    let (tag, parsed) = names::parse_archive_name(&name).expect("parses");
    assert_eq!(tag, b"GeoLite2-ASN".to_vec());
    assert_eq!(parsed, mtime);
}

#[test]
fn archive_name_parse_accepts_digits_and_dashes_in_tags() {
    let (tag, parsed) =
        names::parse_archive_name(b"a-1-b-20240101000000.tar.gz").expect("parses");
    assert_eq!(tag, b"a-1-b".to_vec());
    assert_eq!(parsed, t(2024, 1, 1, 0, 0, 0));
}

#[test]
fn archive_name_parse_rejects_malformed_names() {
    assert!(names::parse_archive_name(b"GeoLite2-City-20240101000000.tar.xz").is_none());
    assert!(names::parse_archive_name(b"GeoLite2-City-20240101000000.tarogz").is_none());
    assert!(names::parse_archive_name(b"GeoLite2-City20240101000000.tar.gz").is_none());
    assert!(names::parse_archive_name(b"-20240101000000.tar.gz").is_none()); // empty tag
    assert!(names::parse_archive_name(b"Geo_Lite-20240101000000.tar.gz").is_none()); // underscore
    assert!(names::parse_archive_name(b"GeoLite2-City.tar.gz").is_none()); // no stamp
    assert!(names::parse_archive_name(b"GeoLite2-City-2024010100000a.tar.gz").is_none());
}

#[test]
fn derived_names() {
    assert_eq!(
        names::mmdb_file_name(b"GeoLite2-City-20240101000000.tar.gz"),
        b"GeoLite2-City-20240101000000.mmdb".to_vec()
    );
    assert_eq!(names::timestamp_file_name(b"GeoLite2-City"), b"GeoLite2-City.timestamp".to_vec());
    assert_eq!(
        names::cleanup_prefix(b"GeoLite2-City", &t(2024, 1, 1, 0, 0, 0)),
        b"GeoLite2-City-20240101000000".to_vec()
    );
    assert_eq!(
        names::strip_tar_gz(b"tzdata-20240101000000.tar.gz"),
        b"tzdata-20240101000000".to_vec()
    );
}

#[test]
fn sibling_cleanup_spares_the_archive_itself() {
    let prefix = b"GeoLite2-City-20240101000000";
    let archive = b"GeoLite2-City-20240101000000.tar.gz";
    assert!(names::should_remove_sibling(b"GeoLite2-City-20240101000000.mmdb", prefix, archive));
    assert!(!names::should_remove_sibling(archive, prefix, archive));
    assert!(!names::should_remove_sibling(b"GeoLite2-City-20240201000000.mmdb", prefix, archive));
    assert!(!names::should_remove_sibling(b"GeoLite2-City.timestamp", prefix, archive));
}

#[test]
fn mmdb_member_names() {
    assert!(names::is_mmdb_member_name(b"GeoLite2-City_20240101/GeoLite2-City.mmdb"));
    assert!(names::is_mmdb_member_name(b"a.mmdb"));
    assert!(!names::is_mmdb_member_name(b".mmdb"));
    assert!(!names::is_mmdb_member_name(b"COPYRIGHT.txt"));
    assert!(!names::is_mmdb_member_name(b"notmmdb"));
}

#[test]
fn edition_substitution() {
    assert_eq!(
        names::substitute_edition(
            b"https://example.org/{edition}/download?suffix=tar.gz",
            b"GeoLite2-City"
        ),
        b"https://example.org/GeoLite2-City/download?suffix=tar.gz".to_vec()
    );
    assert_eq!(
        names::substitute_edition(b"{edition}/{edition}", b"x"),
        b"x/x".to_vec()
    );
    assert_eq!(names::substitute_edition(b"no placeholder", b"x"), b"no placeholder".to_vec());
    assert_eq!(names::substitute_edition(b"{editio}", b"x"), b"{editio}".to_vec());
}

#[test]
fn decimal_formatting() {
    assert_eq!(names::format_u64(0), b"0".to_vec());
    assert_eq!(names::format_u64(404), b"404".to_vec());
    assert_eq!(names::format_u64(18446744073709551615), b"18446744073709551615".to_vec());
}

#[test]
fn unix_seconds_of_known_instants() {
    assert_eq!(t(1970, 1, 1, 0, 0, 0).to_unix_seconds(), 0);
    assert_eq!(t(2024, 1, 1, 0, 0, 0).to_unix_seconds(), 1_704_067_200);
    assert_eq!(t(2024, 4, 1, 0, 0, 0).to_unix_seconds(), 1_711_929_600);
    assert_eq!(t(1969, 12, 31, 23, 59, 59).to_unix_seconds(), -1);
}

#[test]
fn timeline_order() {
    assert!(t(2024, 1, 1, 0, 0, 0).before(&t(2024, 2, 1, 0, 0, 0)));
    assert!(!t(2024, 2, 1, 0, 0, 0).before(&t(2024, 1, 1, 0, 0, 0)));
    assert!(!t(2024, 2, 1, 0, 0, 0).before(&t(2024, 2, 1, 0, 0, 0)));
}
