//! The calendar-text boundary and the archive download decision.  These
//! exercise the trusted wrappers against the real calendar crates.

use geoip_service::clock::{
    http_date_of, parse_http_date_utc, parse_rfc2822_utc, rfc2822_of, utc_from_unix,
};
use geoip_service::download::{plan_archive_download, ArchiveDownloadPlan};
use geoip_service::geoip::{build_asn_info, select_name};
use geoip_service::time::UtcTime;

fn t(year: u16, month: u8, day: u8, hour: u8, minute: u8, second: u8) -> UtcTime {
    UtcTime::make(year, month, day, hour, minute, second).expect("valid instant")
}

#[test]
fn http_date_parses_into_civil_fields() {
    let parsed = parse_http_date_utc("Mon, 01 Apr 2024 00:00:00 GMT").expect("parses");
    assert_eq!(parsed, t(2024, 4, 1, 0, 0, 0));
    let parsed = parse_http_date_utc("Thu, 29 Feb 2024 12:30:45 GMT").expect("parses");
    assert_eq!(parsed, t(2024, 2, 29, 12, 30, 45));
    assert!(parse_http_date_utc("not a date").is_none());
}

#[test]
fn http_date_round_trip() {
    let instant = t(2024, 4, 1, 0, 0, 0);
    let text = http_date_of(&instant).expect("after the epoch");
    assert_eq!(text, "Mon, 01 Apr 2024 00:00:00 GMT");
    assert_eq!(parse_http_date_utc(&text), Some(instant));
}

#[test]
fn rfc2822_round_trip() {
    let instant = t(2024, 3, 15, 18, 45, 30);
    let text = rfc2822_of(&instant);
    assert_eq!(parse_rfc2822_utc(&text), Some(instant));
    let early = t(0, 1, 1, 0, 0, 0);
    assert_eq!(parse_rfc2822_utc(&rfc2822_of(&early)), Some(early));
    let late = t(9999, 12, 31, 23, 59, 59);
    assert_eq!(parse_rfc2822_utc(&rfc2822_of(&late)), Some(late));
    assert!(parse_rfc2822_utc("once upon a time").is_none());
}

#[test]
fn unix_conversion_agrees_with_the_calendar_crate() {
    // utc_from_unix goes through chrono and is then re-checked against the
    // verified arithmetic; these values also pin known instants.
    assert_eq!(utc_from_unix(0), Some(t(1970, 1, 1, 0, 0, 0)));
    assert_eq!(utc_from_unix(1_704_067_200), Some(t(2024, 1, 1, 0, 0, 0)));
    assert_eq!(utc_from_unix(951_827_696), Some(t(2000, 2, 29, 12, 34, 56)));
    assert_eq!(utc_from_unix(-1), Some(t(1969, 12, 31, 23, 59, 59)));
    // round trip through the verified direction
    let instant = t(1987, 7, 5, 4, 3, 2);
    assert_eq!(utc_from_unix(instant.to_unix_seconds()), Some(instant));
    // the calendar range is exact at both ends
    assert_eq!(utc_from_unix(-62_167_219_200), Some(t(0, 1, 1, 0, 0, 0)));
    assert!(utc_from_unix(-62_167_219_201).is_none());
    assert_eq!(utc_from_unix(253_402_300_799), Some(t(9999, 12, 31, 23, 59, 59)));
    assert!(utc_from_unix(253_402_300_800).is_none());
}

#[test]
fn download_honors_if_modified_since() {
    let mtime = t(2024, 1, 1, 0, 0, 0);
    let same = mtime.to_unix_seconds();
    assert!(matches!(
        plan_archive_download(&mtime, Some(same), b"GeoLite2-City"),
        ArchiveDownloadPlan::NotModified
    ));
    assert!(matches!(
        plan_archive_download(&mtime, Some(same + 10), b"GeoLite2-City"),
        ArchiveDownloadPlan::NotModified
    ));
    match plan_archive_download(&mtime, Some(same - 10), b"GeoLite2-City") {
        ArchiveDownloadPlan::Send { content_disposition } => {
            assert_eq!(
                content_disposition,
                b"attachment; filename=\"GeoLite2-City.tar.gz\"".to_vec()
            );
        },
        ArchiveDownloadPlan::NotModified => panic!("older copy must be refreshed"),
    }
    assert!(matches!(
        plan_archive_download(&mtime, None, b"GeoLite2-City"),
        ArchiveDownloadPlan::Send { .. }
    ));
}

#[test]
fn locale_name_selection() {
    let pairs = vec![
        ("de".to_string(), "Frankreich".to_string()),
        ("en".to_string(), "France".to_string()),
        ("fr".to_string(), "France".to_string()),
    ];
    assert_eq!(select_name(&pairs, &"en".to_string()), Some("France".to_string()));
    assert_eq!(select_name(&pairs, &"de".to_string()), Some("Frankreich".to_string()));
    assert_eq!(select_name(&pairs, &"ja".to_string()), None);
    assert_eq!(select_name(&Vec::new(), &"en".to_string()), None);
}

#[test]
fn asn_record_carries_only_the_asn_pair() {
    let info = build_asn_info(Some(13335), Some("CloudFlare, Inc.".to_string()));
    assert_eq!(info.autonomous_system_number, Some(13335));
    assert_eq!(info.autonomous_system_organization, Some("CloudFlare, Inc.".to_string()));
    assert!(info.country_id.is_none());
    assert!(info.city_id.is_none());
    assert!(info.subdivisions.is_empty());
    assert!(info.latitude.is_none());
}
