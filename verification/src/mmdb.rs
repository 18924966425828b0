//! The trusted boundary to the MaxMind database reader.
//!
//! The binary database format is a collaborator's concern: maxminddb opens a
//! memory-mapped file and answers typed queries.  This module declares the
//! reader type so it can live in verified structures, and wraps the handful
//! of calls the lookup facade makes.  Each wrapper only moves fields of the
//! query result into plain values; what the service does with those values
//! is verified elsewhere.

use vstd::prelude::*;

verus! {

#[verifier::external_type_specification]
#[verifier::external_body]
pub struct ExEnterprise<'a>(maxminddb::geoip2::Enterprise<'a>);

/// The open memory-mapped MaxMind database reader.  Its declaration is
/// refused generically (`Reader<S: AsRef<[u8]>>`), so the reader lives in a
/// field Verus does not look into; the wrappers below make the calls.
#[verifier::external_body]
pub struct MmdbReaderHandle {
    inner: maxminddb::Reader<maxminddb::Mmap>,
}

/// Localized names of a place, as `(language code, name)` pairs.
pub type NamePairs = Vec<(String, String)>;

/// Relies on maxminddb's `Reader::open_mmap`: memory-maps the database file
/// at the given path, here UTF-8 bytes.
#[verifier::external_body]
pub(crate) fn open_mmdb(path: &[u8]) -> (out: Result<MmdbReaderHandle, String>) {
    let p = match std::str::from_utf8(path) {
        Ok(s) => s,
        Err(e) => return Err(e.to_string()),
    };
    match maxminddb::Reader::open_mmap(p) {
        Ok(inner) => Ok(MmdbReaderHandle { inner }),
        Err(e) => Err(e.to_string()),
    }
}

/// Relies on maxminddb's `Reader::metadata.database_type`: the type string
/// of the opened database, e.g. `GeoLite2-ASN`.
#[verifier::external_body]
pub(crate) fn reader_database_type(r: &MmdbReaderHandle) -> (out: Vec<u8>) {
    r.inner.metadata.database_type.as_bytes().to_vec()
}

/// Relies on maxminddb's `Reader::metadata.build_epoch`: the Unix timestamp
/// the database was built at.
#[verifier::external_body]
pub(crate) fn reader_build_epoch(r: &MmdbReaderHandle) -> (out: u64) {
    r.inner.metadata.build_epoch
}

/// Relies on maxminddb's `Reader::metadata.languages`: the locale codes the
/// database carries names for.
#[verifier::external_body]
pub(crate) fn reader_languages(r: &MmdbReaderHandle) -> (out: Vec<String>) {
    r.inner.metadata.languages.clone()
}

/// Relies on maxminddb's `Reader::lookup` with the ASN schema: resolves an
/// IP address (given in text form) to its autonomous-system number and
/// organization, moved into plain values.
#[verifier::external_body]
pub(crate) fn lookup_asn(r: &MmdbReaderHandle, ip: &str) -> (out: Result<
    Option<(Option<u32>, Option<String>)>,
    String,
>) {
    let addr = match ip.parse() {
        Ok(a) => a,
        Err(_) => return Err(format!("invalid IP address: {ip}")),
    };
    match r.inner.lookup::<maxminddb::geoip2::Asn>(addr) {
        Ok(Some(a)) => Ok(
            Some(
                (a.autonomous_system_number, a.autonomous_system_organization.map(str::to_owned)),
            ),
        ),
        Ok(None) => Ok(None),
        Err(e) => Err(e.to_string()),
    }
}

/// Relies on maxminddb's `Reader::lookup` with the Enterprise schema:
/// resolves an IP address (given in text form) to the full record, handed
/// back opaquely for the field wrappers below.
#[verifier::external_body]
pub(crate) fn lookup_enterprise<'a>(r: &'a MmdbReaderHandle, ip: &str) -> (out: Result<
    Option<maxminddb::geoip2::Enterprise<'a>>,
    String,
>) {
    let addr = match ip.parse() {
        Ok(a) => a,
        Err(_) => return Err(format!("invalid IP address: {ip}")),
    };
    match r.inner.lookup::<maxminddb::geoip2::Enterprise>(addr) {
        Ok(v) => Ok(v),
        Err(e) => Err(e.to_string()),
    }
}

/// Relies on maxminddb's `geoip2::Enterprise.continent`: moves
/// `(geoname_id, code, names)` into plain values.
#[verifier::external_body]
pub(crate) fn enterprise_continent(e: &maxminddb::geoip2::Enterprise<'_>) -> (out: (
    Option<u32>,
    Option<String>,
    NamePairs,
)) {
    match &e.continent {
        None => (None, None, Vec::new()),
        Some(c) => (
            c.geoname_id,
            c.code.map(str::to_owned),
            c.names.as_ref().map(
                |m| m.iter().map(|(k, v)| ((*k).to_owned(), (*v).to_owned())).collect(),
            ).unwrap_or_default(),
        ),
    }
}

/// Relies on maxminddb's `geoip2::Enterprise.country`: moves
/// `(geoname_id, iso_code, is_in_european_union, names)` into plain values.
#[verifier::external_body]
pub(crate) fn enterprise_country(e: &maxminddb::geoip2::Enterprise<'_>) -> (out: (
    Option<u32>,
    Option<String>,
    Option<bool>,
    NamePairs,
)) {
    match &e.country {
        None => (None, None, None, Vec::new()),
        Some(c) => (
            c.geoname_id,
            c.iso_code.map(str::to_owned),
            c.is_in_european_union,
            c.names.as_ref().map(
                |m| m.iter().map(|(k, v)| ((*k).to_owned(), (*v).to_owned())).collect(),
            ).unwrap_or_default(),
        ),
    }
}

/// Relies on maxminddb's `geoip2::Enterprise.city`: moves
/// `(geoname_id, names)` into plain values.
#[verifier::external_body]
pub(crate) fn enterprise_city(e: &maxminddb::geoip2::Enterprise<'_>) -> (out: (Option<u32>, NamePairs)) {
    match &e.city {
        None => (None, Vec::new()),
        Some(c) => (
            c.geoname_id,
            c.names.as_ref().map(
                |m| m.iter().map(|(k, v)| ((*k).to_owned(), (*v).to_owned())).collect(),
            ).unwrap_or_default(),
        ),
    }
}

/// Relies on maxminddb's `geoip2::Enterprise.location`: moves
/// `(metro_code, time_zone, latitude, longitude, accuracy_radius)` into
/// plain values; the coordinates are carried as their decimal text, which
/// the I/O shell parses back.
#[verifier::external_body]
pub(crate) fn enterprise_location(e: &maxminddb::geoip2::Enterprise<'_>) -> (out: (
    Option<u16>,
    Option<String>,
    Option<String>,
    Option<String>,
    Option<u16>,
)) {
    match &e.location {
        None => (None, None, None, None, None),
        Some(l) => (
            l.metro_code,
            l.time_zone.map(str::to_owned),
            l.latitude.map(|v| format!("{v}")),
            l.longitude.map(|v| format!("{v}")),
            l.accuracy_radius,
        ),
    }
}

/// Relies on maxminddb's `geoip2::Enterprise.postal`: moves the postal code
/// into a plain value.
#[verifier::external_body]
pub(crate) fn enterprise_postal(e: &maxminddb::geoip2::Enterprise<'_>) -> (out: Option<String>) {
    match &e.postal {
        None => None,
        Some(p) => p.code.map(str::to_owned),
    }
}

/// Relies on maxminddb's `geoip2::Enterprise.traits`: moves the trait fields
/// the service reports into plain values.
#[verifier::external_body]
pub(crate) fn enterprise_traits(e: &maxminddb::geoip2::Enterprise<'_>) -> (out: (
    Option<u32>,
    Option<String>,
    Option<bool>,
    Option<bool>,
    Option<bool>,
)) {
    match &e.traits {
        None => (None, None, None, None, None),
        Some(t) => (
            t.autonomous_system_number,
            t.autonomous_system_organization.map(str::to_owned),
            t.is_anonymous_proxy,
            t.is_anycast,
            t.is_satellite_provider,
        ),
    }
}

/// Relies on maxminddb's `geoip2::Enterprise.subdivisions`: moves each
/// subdivision's `(geoname_id, iso_code, names)` into plain values, in the
/// record's order.
#[verifier::external_body]
pub(crate) fn enterprise_subdivisions(e: &maxminddb::geoip2::Enterprise<'_>) -> (out: Vec<
    (Option<u32>, Option<String>, NamePairs),
>) {
    match &e.subdivisions {
        None => Vec::new(),
        Some(subs) => subs.iter().map(|s| (s.geoname_id, s.iso_code.map(str::to_owned),
            s.names.as_ref().map(|m| m.iter().map(|(k, v)| ((*k).to_owned(), (*v).to_owned()))
                .collect()).unwrap_or_default())).collect(),
    }
}

} // verus!
