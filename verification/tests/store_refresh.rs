//! The archive store: discovery, refresh planning, install and bump.

use geoip_service::store::{
    interpret_response, make_archive_info, ArchiveFileInfo, ArchiveStore, RefreshPlan, RefreshStep,
};
use geoip_service::time::UtcTime;

fn t(year: u16, month: u8, day: u8, hour: u8, minute: u8, second: u8) -> UtcTime {
    UtcTime::make(year, month, day, hour, minute, second).expect("valid instant")
}

fn candidate(tag: &[u8], mtime: UtcTime) -> ArchiveFileInfo {
    make_archive_info(tag, &mtime, None)
}

#[test]
fn cold_start_with_one_archive() {
    let mtime = t(2024, 1, 1, 0, 0, 0);
    let candidates = vec![candidate(b"GeoLite2-City", mtime)];
    let (store, losers) = ArchiveStore::discover(&candidates);
    assert!(losers.is_empty());
    let current = store.get_latest_archive(b"GeoLite2-City").expect("present");
    assert_eq!(current.tag, b"GeoLite2-City".to_vec());
    assert_eq!(current.path, b"GeoLite2-City-20240101000000.tar.gz".to_vec());
    assert_eq!(current.mtime, mtime);
    assert_eq!(current.utime, mtime); // no side file: defaults to mtime
}

#[test]
fn duplicate_versions_keep_the_newest() {
    let older = candidate(b"GeoLite2-City", t(2024, 1, 1, 0, 0, 0));
    let newer = candidate(b"GeoLite2-City", t(2024, 2, 1, 0, 0, 0));
    let candidates = vec![older, newer];
    let (store, losers) = ArchiveStore::discover(&candidates);
    let current = store.get_latest_archive(b"GeoLite2-City").expect("present");
    assert_eq!(current.path, b"GeoLite2-City-20240201000000.tar.gz".to_vec());
    assert_eq!(losers.len(), 1);
    assert_eq!(losers[0].path, b"GeoLite2-City-20240101000000.tar.gz".to_vec());
}

#[test]
fn duplicate_versions_keep_the_newest_whatever_the_order() {
    let newer = candidate(b"GeoLite2-City", t(2024, 2, 1, 0, 0, 0));
    let older = candidate(b"GeoLite2-City", t(2024, 1, 1, 0, 0, 0));
    let candidates = vec![newer, older];
    let (store, losers) = ArchiveStore::discover(&candidates);
    let current = store.get_latest_archive(b"GeoLite2-City").expect("present");
    assert_eq!(current.path, b"GeoLite2-City-20240201000000.tar.gz".to_vec());
    assert_eq!(losers.len(), 1);
    assert_eq!(losers[0].path, b"GeoLite2-City-20240101000000.tar.gz".to_vec());
}

#[test]
fn discovery_keeps_tags_apart() {
    let candidates = vec![
        candidate(b"GeoLite2-City", t(2024, 1, 1, 0, 0, 0)),
        candidate(b"GeoLite2-ASN", t(2023, 6, 1, 0, 0, 0)),
        candidate(b"tzdata", t(2024, 3, 1, 0, 0, 0)),
    ];
    let (store, losers) = ArchiveStore::discover(&candidates);
    assert!(losers.is_empty());
    assert!(store.get_latest_archive(b"GeoLite2-City").is_some());
    assert!(store.get_latest_archive(b"GeoLite2-ASN").is_some());
    assert!(store.get_latest_archive(b"tzdata").is_some());
    assert!(store.get_latest_archive(b"GeoLite2-Country").is_none());
}

#[test]
fn side_file_overrides_utime() {
    let mtime = t(2024, 1, 1, 0, 0, 0);
    let checked = t(2024, 3, 15, 12, 0, 0);
    let info = make_archive_info(b"GeoLite2-City", &mtime, Some(&checked));
    assert_eq!(info.mtime, mtime);
    assert_eq!(info.utime, checked);
}

#[test]
fn fresh_version_skips_without_a_network_call() {
    // utime two hours back, interval twenty-four hours: skip.
    let mut store = ArchiveStore::new();
    store.install(b"GeoLite2-City", &t(2024, 1, 1, 0, 0, 0), &t(2024, 3, 1, 10, 0, 0));
    let now = t(2024, 3, 1, 12, 0, 0);
    let plan = store.plan_refresh(b"GeoLite2-City", &now, 24 * 3600);
    assert!(matches!(plan, RefreshPlan::Skip));
}

#[test]
fn stale_version_fetches_conditionally() {
    // utime two hours back, interval one hour: fetch with If-Modified-Since.
    let mtime = t(2024, 1, 1, 0, 0, 0);
    let mut store = ArchiveStore::new();
    store.install(b"GeoLite2-City", &mtime, &t(2024, 3, 1, 10, 0, 0));
    let now = t(2024, 3, 1, 12, 0, 0);
    match store.plan_refresh(b"GeoLite2-City", &now, 3600) {
        RefreshPlan::Fetch { if_modified_since } => {
            assert_eq!(if_modified_since, Some(mtime));
        },
        RefreshPlan::Skip => panic!("expected a fetch"),
    }
}

#[test]
fn unknown_tag_fetches_unconditionally() {
    let store = ArchiveStore::new();
    match store.plan_refresh(b"GeoLite2-City", &t(2024, 3, 1, 12, 0, 0), 3600) {
        RefreshPlan::Fetch { if_modified_since } => assert!(if_modified_since.is_none()),
        RefreshPlan::Skip => panic!("expected a fetch"),
    }
}

#[test]
fn refresh_within_interval_after_bump_skips() {
    // The 304 path bumps utime to now; the very next tick skips.
    let mut store = ArchiveStore::new();
    store.install(b"GeoLite2-City", &t(2024, 1, 1, 0, 0, 0), &t(2024, 1, 1, 0, 0, 0));
    let first_check = t(2024, 3, 1, 12, 0, 0);
    store.bump_utime(b"GeoLite2-City", &first_check);
    let second_check = t(2024, 3, 1, 12, 30, 0);
    let plan = store.plan_refresh(b"GeoLite2-City", &second_check, 3600);
    assert!(matches!(plan, RefreshPlan::Skip));
}

#[test]
fn not_modified_rewrites_only_the_check_time() {
    // The 304 path: mtime and the canonical path stay, utime moves to now.
    let mtime = t(2024, 1, 1, 0, 0, 0);
    let mut store = ArchiveStore::new();
    store.install(b"GeoLite2-City", &mtime, &t(2024, 3, 1, 10, 0, 0));
    let now = t(2024, 3, 1, 12, 0, 0);
    assert!(matches!(
        interpret_response(304, None, &now),
        RefreshStep::BumpOnly
    ));
    store.bump_utime(b"GeoLite2-City", &now);
    let current = store.get_latest_archive(b"GeoLite2-City").expect("present");
    assert_eq!(current.mtime, mtime);
    assert_eq!(current.path, b"GeoLite2-City-20240101000000.tar.gz".to_vec());
    assert_eq!(current.utime, now);
}

#[test]
fn bump_never_moves_the_check_time_backwards() {
    let mut store = ArchiveStore::new();
    store.install(b"GeoLite2-City", &t(2024, 1, 1, 0, 0, 0), &t(2024, 3, 1, 12, 0, 0));
    store.bump_utime(b"GeoLite2-City", &t(2024, 3, 1, 11, 0, 0));
    let current = store.get_latest_archive(b"GeoLite2-City").expect("present");
    assert_eq!(current.utime, t(2024, 3, 1, 12, 0, 0));
}

#[test]
fn success_with_last_modified_installs_that_stamp() {
    // The happy update path: a 200 with Last-Modified installs the stamped name.
    let now = t(2024, 4, 2, 8, 0, 0);
    let last_modified = t(2024, 4, 1, 0, 0, 0);
    let step = interpret_response(200, Some(&last_modified), &now);
    let mtime = match step {
        RefreshStep::Install { mtime } => mtime,
        _ => panic!("expected an install"),
    };
    assert_eq!(mtime, last_modified);
    let mut store = ArchiveStore::new();
    store.install(b"GeoLite2-City", &t(2024, 1, 1, 0, 0, 0), &t(2024, 1, 1, 0, 0, 0));
    let (new_version, superseded) = store.install(b"GeoLite2-City", &mtime, &now);
    assert_eq!(new_version.path, b"GeoLite2-City-20240401000000.tar.gz".to_vec());
    assert_eq!(new_version.utime, now);
    let superseded = superseded.expect("prior version displaced");
    assert_eq!(superseded.path, b"GeoLite2-City-20240101000000.tar.gz".to_vec());
    let current = store.get_latest_archive(b"GeoLite2-City").expect("present");
    assert_eq!(current.path, b"GeoLite2-City-20240401000000.tar.gz".to_vec());
}

#[test]
fn success_without_last_modified_stamps_now() {
    let now = t(2024, 4, 2, 8, 0, 0);
    match interpret_response(201, None, &now) {
        RefreshStep::Install { mtime } => assert_eq!(mtime, now),
        _ => panic!("expected an install"),
    }
}

#[test]
fn other_statuses_fail() {
    let now = t(2024, 4, 2, 8, 0, 0);
    assert!(matches!(
        interpret_response(404, None, &now),
        RefreshStep::Fail { status: 404 }
    ));
    assert!(matches!(
        interpret_response(500, None, &now),
        RefreshStep::Fail { status: 500 }
    ));
    assert!(matches!(
        interpret_response(301, None, &now),
        RefreshStep::Fail { status: 301 }
    ));
}

#[test]
fn a_retracted_version_is_no_longer_current() {
    // A downloaded archive that turned out unusable is dropped again: the
    // tag advertises no current version until the next install.
    let mut store = ArchiveStore::new();
    store.install(b"GeoLite2-City", &t(2024, 4, 1, 0, 0, 0), &t(2024, 4, 2, 8, 0, 0));
    let removed = store.remove_version(b"GeoLite2-City").expect("was current");
    assert_eq!(removed.path, b"GeoLite2-City-20240401000000.tar.gz".to_vec());
    assert!(store.get_latest_archive(b"GeoLite2-City").is_none());
    assert!(store.remove_version(b"GeoLite2-City").is_none());
}
