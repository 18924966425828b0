//! The TZif suffix extraction and the timezone table.

use geoip_service::tz::{tz_string, zic_args, TzTable};

fn tzif(posix: &[u8]) -> Vec<u8> {
    let mut bytes = b"TZif2".to_vec();
    bytes.extend_from_slice(&[0u8, 1, 2, 3]); // binary body, arbitrary
    bytes.push(b'\n');
    bytes.extend_from_slice(posix);
    bytes.push(b'\n');
    bytes
}

#[test]
fn extracts_the_final_line() {
    let bytes = tzif(b"CET-1CEST,M3.5.0,M10.5.0/3");
    assert_eq!(tz_string(&bytes), Some(b"CET-1CEST,M3.5.0,M10.5.0/3".to_vec()));
}

#[test]
fn trims_surrounding_whitespace() {
    let bytes = tzif(b"  UTC0 \t");
    assert_eq!(tz_string(&bytes), Some(b"UTC0".to_vec()));
}

#[test]
fn rejects_files_without_the_magic() {
    let mut bytes = tzif(b"UTC0");
    bytes[0] = b'X';
    assert_eq!(tz_string(&bytes), None);
    assert_eq!(tz_string(b"TZi"), None); // too short
}

#[test]
fn rejects_files_without_trailing_newline() {
    let mut bytes = tzif(b"UTC0");
    bytes.pop();
    assert_eq!(tz_string(&bytes), None);
}

#[test]
fn rejects_files_without_a_second_newline() {
    // after stripping the one trailing newline no newline remains
    let mut bytes = b"TZif2".to_vec();
    bytes.extend_from_slice(b"UTC0");
    bytes.push(b'\n');
    assert_eq!(tz_string(&bytes), None);
}

#[test]
fn rejects_an_empty_suffix() {
    let bytes = tzif(b"   ");
    assert_eq!(tz_string(&bytes), None);
}

#[test]
fn rejects_a_suffix_that_is_not_utf8() {
    let bytes = tzif(&[0xff, 0xfe]);
    assert_eq!(tz_string(&bytes), None);
}

#[test]
fn table_records_walked_files() {
    let mut table = TzTable::new();
    table.load_from_slice(b"Europe/Paris", &tzif(b"CET-1CEST,M3.5.0,M10.5.0/3"));
    table.load_from_slice(b"Etc/UTC", &tzif(b"UTC0"));
    table.load_from_slice(b"Europe/README", b"not a tzif file");
    assert_eq!(
        table.lookup(b"Europe/Paris"),
        Some(b"CET-1CEST,M3.5.0,M10.5.0/3".to_vec())
    );
    assert_eq!(table.lookup(b"Etc/UTC"), Some(b"UTC0".to_vec()));
    assert_eq!(table.lookup(b"Europe/README"), None);
    assert_eq!(table.lookup(b"America/New_York"), None);
    assert_eq!(table.get_all().len(), 2);
}

#[test]
fn table_overwrites_on_rebuild() {
    let mut table = TzTable::new();
    table.insert(b"Etc/UTC", b"UTC0".to_vec());
    table.insert(b"Etc/UTC", b"UTC-0".to_vec());
    assert_eq!(table.lookup(b"Etc/UTC"), Some(b"UTC-0".to_vec()));
    assert_eq!(table.get_all().len(), 1);
}

#[test]
fn zone_identifiers_join_with_slashes() {
    let prefix = geoip_service::tz::child_zone_prefix(b"", b"Europe");
    assert_eq!(prefix, b"Europe/".to_vec());
    let id = geoip_service::tz::zone_id(&prefix, b"Paris");
    assert_eq!(id, b"Europe/Paris".to_vec());
}

#[test]
fn compiler_arguments() {
    let args = zic_args(b"/data/tzdata-20240101000000.zoneinfo");
    let expected: Vec<&[u8]> = vec![
        b"-d",
        b"/data/tzdata-20240101000000.zoneinfo",
        b"-L",
        b"leapseconds",
        b"africa",
        b"antarctica",
        b"asia",
        b"australasia",
        b"etcetera",
        b"europe",
        b"northamerica",
        b"southamerica",
        b"backward",
    ];
    assert_eq!(args.len(), expected.len());
    for (got, want) in args.iter().zip(expected.iter()) {
        assert_eq!(got.as_slice(), *want);
    }
}

#[test]
fn derived_directories() {
    assert_eq!(
        geoip_service::tz::tzdata_source_dir(b"tzdata-20240101000000.tar.gz"),
        b"tzdata-20240101000000".to_vec()
    );
    assert_eq!(
        geoip_service::tz::zoneinfo_dir_name(b"tzdata-20240101000000"),
        b"tzdata-20240101000000.zoneinfo".to_vec()
    );
    assert_eq!(geoip_service::tz::tzdata_tag_vec(), b"tzdata".to_vec());
}
