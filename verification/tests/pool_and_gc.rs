//! The reader pool's slots and the deferred cleanup ledger.

use geoip_service::errors::MaxMindServiceError;
use geoip_service::gc::DeferredGc;
use geoip_service::pool::MaxMindService;
use geoip_service::store::make_archive_info;
use geoip_service::time::UtcTime;

fn t(year: u16, month: u8, day: u8, hour: u8, minute: u8, second: u8) -> UtcTime {
    UtcTime::make(year, month, day, hour, minute, second).expect("valid instant")
}

#[test]
fn startup_makes_a_slot_per_edition() {
    let editions = vec![b"GeoLite2-City".to_vec(), b"GeoLite2-ASN".to_vec()];
    let pool = MaxMindService::new(&editions);
    let status = pool.status();
    assert_eq!(status.databases.len(), 2);
    assert_eq!(status.databases[0].edition, b"GeoLite2-City".to_vec());
    assert_eq!(status.databases[1].edition, b"GeoLite2-ASN".to_vec());
    for row in &status.databases {
        assert!(row.timestamp.is_none());
        assert!(row.file_size.is_none());
        assert!(row.archive_file_size.is_none());
        assert!(row.error.is_none());
        assert!(row.last_update_check.is_none());
        assert!(row.locales.is_empty());
    }
}

#[test]
fn duplicate_editions_collapse() {
    let editions = vec![b"GeoLite2-City".to_vec(), b"GeoLite2-City".to_vec()];
    let pool = MaxMindService::new(&editions);
    assert_eq!(pool.status().databases.len(), 1);
}

#[test]
fn default_edition_is_the_first_configured() {
    let editions = vec![b"GeoLite2-City".to_vec(), b"GeoLite2-ASN".to_vec()];
    let pool = MaxMindService::new(&editions);
    assert_eq!(pool.default_edition().expect("configured"), &b"GeoLite2-City".to_vec());
    let empty = MaxMindService::new(&Vec::new());
    assert!(empty.default_edition().is_none());
}

#[test]
fn unknown_edition_and_missing_database() {
    let editions = vec![b"GeoLite2-City".to_vec()];
    let pool = MaxMindService::new(&editions);
    assert!(matches!(
        pool.get_reader(Some(b"GeoLite2-Country")),
        Err(MaxMindServiceError::UnknownEdition)
    ));
    assert!(matches!(
        pool.get_reader(Some(b"GeoLite2-City")),
        Err(MaxMindServiceError::MissingDatabase)
    ));
    assert!(matches!(
        pool.get_reader(None),
        Err(MaxMindServiceError::MissingDatabase)
    ));
    let none_configured = MaxMindService::new(&Vec::new());
    assert!(matches!(
        none_configured.get_reader(None),
        Err(MaxMindServiceError::UnknownEdition)
    ));
}

#[test]
fn update_results_fill_and_clear_the_error_slot() {
    let editions = vec![b"GeoLite2-City".to_vec()];
    let mut pool = MaxMindService::new(&editions);
    pool.record_update_result(b"GeoLite2-City", Some(b"boom".to_vec()));
    let status = pool.status();
    assert_eq!(status.databases[0].error, Some(b"boom".to_vec()));
    pool.record_update_result(b"GeoLite2-City", None);
    let status = pool.status();
    assert!(status.databases[0].error.is_none());
    // an unconfigured edition is ignored
    pool.record_update_result(b"GeoLite2-Country", Some(b"lost".to_vec()));
    assert_eq!(pool.status().databases.len(), 1);
}

#[test]
fn error_messages() {
    assert_eq!(
        MaxMindServiceError::UnknownEdition.message(),
        b"Unknown MaxMind database edition".to_vec()
    );
    assert_eq!(
        MaxMindServiceError::MissingDatabase.message(),
        b"MaxMind database is missing".to_vec()
    );
    assert_eq!(
        geoip_service::errors::lookup_error_status(&MaxMindServiceError::UnknownEdition),
        404
    );
    assert_eq!(
        geoip_service::errors::lookup_error_status(&MaxMindServiceError::MissingDatabase),
        503
    );
    assert_eq!(
        geoip_service::errors::lookup_error_status(&MaxMindServiceError::Io(b"x".to_vec())),
        500
    );
    assert_eq!(
        geoip_service::errors::FileServiceError::HttpStatus(404).message(),
        b"HTTP status error: 404".to_vec()
    );
    assert_eq!(
        geoip_service::errors::TimezoneServiceError::Zic(3).message(),
        b"ZIC command failed with exit code 3".to_vec()
    );
    assert_eq!(
        geoip_service::errors::TimezoneServiceError::Zic(-6).message(),
        b"ZIC command failed with exit code -6".to_vec()
    );
}

#[test]
fn deferred_gc_waits_for_the_last_reference() {
    // A superseded version is not handed out for deletion while referenced.
    let mut gc = DeferredGc::new();
    let version = make_archive_info(b"GeoLite2-City", &t(2024, 1, 1, 0, 0, 0), None);
    let id = gc.schedule(version);
    assert!(gc.collect(id).is_none()); // still referenced: no deletion
    gc.observe_unreferenced(id);
    let handed = gc.collect(id).expect("collectable now");
    assert_eq!(handed.path, b"GeoLite2-City-20240101000000.tar.gz".to_vec());
}

#[test]
fn deferred_gc_deletes_exactly_once() {
    let mut gc = DeferredGc::new();
    let version = make_archive_info(b"GeoLite2-City", &t(2024, 1, 1, 0, 0, 0), None);
    let id = gc.schedule(version);
    gc.observe_unreferenced(id);
    assert!(gc.collect(id).is_some());
    assert!(gc.collect(id).is_none()); // no double delete
    assert!(gc.collect(id).is_none());
}

#[test]
fn deferred_gc_tracks_versions_independently() {
    // A sequence of hot-swaps: each superseded version is deleted once, in
    // whatever order its readers drop.
    let mut gc = DeferredGc::new();
    let first = gc.schedule(make_archive_info(b"GeoLite2-City", &t(2024, 1, 1, 0, 0, 0), None));
    let second = gc.schedule(make_archive_info(b"GeoLite2-City", &t(2024, 2, 1, 0, 0, 0), None));
    gc.observe_unreferenced(second);
    let v2 = gc.collect(second).expect("second collectable");
    assert_eq!(v2.path, b"GeoLite2-City-20240201000000.tar.gz".to_vec());
    assert!(gc.collect(first).is_none()); // first still referenced
    gc.observe_unreferenced(first);
    let v1 = gc.collect(first).expect("first collectable");
    assert_eq!(v1.path, b"GeoLite2-City-20240101000000.tar.gz".to_vec());
    assert!(gc.collect(first).is_none());
    assert!(gc.collect(second).is_none());
}

#[test]
fn corrupt_download_keeps_the_prior_reader_and_reports() {
    // A fetched archive that cannot be opened: the failure lands in the
    // error slot, and the slot's reader is left exactly as it was.
    let editions = vec![b"GeoLite2-City".to_vec()];
    let mut pool = MaxMindService::new(&editions);
    pool.record_update_result(
        b"GeoLite2-City",
        Some(b"invalid gzip header".to_vec()),
    );
    let status = pool.status();
    assert_eq!(status.databases[0].error, Some(b"invalid gzip header".to_vec()));
    // the reader slot is untouched by the failure
    assert!(status.databases[0].timestamp.is_none());
    assert!(matches!(
        pool.get_reader(Some(b"GeoLite2-City")),
        Err(MaxMindServiceError::MissingDatabase)
    ));
}
