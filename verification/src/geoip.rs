//! The lookup facade: an IP address to a structured location record.
//!
//! The database answers with localized name tables and raw fields; this
//! module holds the rules applied on top of them: the choice of name for the
//! requested locale, the dispatch on the database type, and the join with
//! the timezone table for the POSIX TZ string.  Coordinates pass through as
//! their decimal text; the I/O shell parses them into numbers at its edge.

use vstd::prelude::*;
use vstd::utf8::encode_utf8;
use crate::errors::MaxMindServiceError;
use crate::mmdb::NamePairs;
use crate::pool::MaxMindService;
use crate::tz::TzTable;

verus! {

/// The view of an optional string.
pub open spec fn opt_str(o: Option<String>) -> Option<Seq<char>> {
    match o {
        Some(s) => Some(s@),
        None => None,
    }
}

/// The view of an optional byte string.
pub open spec fn opt_bytes(o: Option<Vec<u8>>) -> Option<Seq<u8>> {
    match o {
        Some(v) => Some(v@),
        None => None,
    }
}

/// The name recorded for a locale: the first pair carrying it.
pub open spec fn spec_select(pairs: Seq<(String, String)>, locale: Seq<char>) -> Option<Seq<char>>
    decreases pairs.len(),
{
    if pairs.len() == 0 {
        None
    } else if pairs[0].0@ == locale {
        Some(pairs[0].1@)
    } else {
        spec_select(pairs.drop_first(), locale)
    }
}

proof fn lemma_select_first(pairs: Seq<(String, String)>, locale: Seq<char>, i: int)
    requires
        0 <= i < pairs.len(),
        pairs[i].0@ == locale,
        forall|j: int| 0 <= j < i ==> (#[trigger] pairs[j]).0@ != locale,
    ensures
        spec_select(pairs, locale) == Some(pairs[i].1@),
    decreases i,
{
    if i > 0 {
        lemma_select_first(pairs.drop_first(), locale, i - 1);
    }
}

proof fn lemma_select_absent(pairs: Seq<(String, String)>, locale: Seq<char>)
    requires
        forall|j: int| 0 <= j < pairs.len() ==> (#[trigger] pairs[j]).0@ != locale,
    ensures
        spec_select(pairs, locale) is None,
    decreases pairs.len(),
{
    if pairs.len() > 0 {
        lemma_select_absent(pairs.drop_first(), locale);
    }
}

/// Picks the name of the requested locale out of a name table, executable
/// mirror of [`spec_select`].
pub fn select_name(pairs: &NamePairs, locale: &String) -> (r: Option<String>)
    ensures
        opt_str(r) == spec_select(pairs@, locale@),
{
    let mut i: usize = 0;
    while i < pairs.len()
        invariant
            i <= pairs@.len(),
            forall|j: int| 0 <= j < i ==> (#[trigger] pairs@[j]).0@ != locale@,
        decreases pairs@.len() - i,
    {
        if pairs[i].0.eq(locale) {
            proof {
                lemma_select_first(pairs@, locale@, i as int);
            }
            return Some(pairs[i].1.clone());
        }
        i += 1;
    }
    proof {
        lemma_select_absent(pairs@, locale@);
    }
    None
}

/// One subdivision of a location record.
pub struct GeoNameSubdivision {
    pub id: Option<u32>,
    pub iso_code: Option<String>,
    pub name: Option<String>,
}

/// A location record, every field optional.  `latitude` and `longitude`
/// carry the coordinates' decimal text; `posix_timezone` is the timezone
/// table's entry for the record's IANA zone.
pub struct GeoIpInfo {
    pub continent_id: Option<u32>,
    pub continent_code: Option<String>,
    pub continent_name: Option<String>,
    pub country_id: Option<u32>,
    pub country_iso_code: Option<String>,
    pub country_name: Option<String>,
    pub subdivisions: Vec<GeoNameSubdivision>,
    pub city_id: Option<u32>,
    pub city_name: Option<String>,
    pub metro_code: Option<u16>,
    pub postal_code: Option<String>,
    pub timezone: Option<String>,
    pub posix_timezone: Option<Vec<u8>>,
    pub latitude: Option<String>,
    pub longitude: Option<String>,
    pub accuracy_radius: Option<u16>,
    pub is_in_european_union: Option<bool>,
    pub is_anonymous_proxy: Option<bool>,
    pub is_anycast: Option<bool>,
    pub is_satellite_provider: Option<bool>,
    pub autonomous_system_number: Option<u32>,
    pub autonomous_system_organization: Option<String>,
}

impl GeoIpInfo {
    /// A record with nothing in it.
    pub fn empty() -> (r: GeoIpInfo)
        ensures
            r.continent_id is None,
            r.continent_code is None,
            r.continent_name is None,
            r.country_id is None,
            r.country_iso_code is None,
            r.country_name is None,
            r.subdivisions@.len() == 0,
            r.city_id is None,
            r.city_name is None,
            r.metro_code is None,
            r.postal_code is None,
            r.timezone is None,
            r.posix_timezone is None,
            r.latitude is None,
            r.longitude is None,
            r.accuracy_radius is None,
            r.is_in_european_union is None,
            r.is_anonymous_proxy is None,
            r.is_anycast is None,
            r.is_satellite_provider is None,
            r.autonomous_system_number is None,
            r.autonomous_system_organization is None,
    {
        GeoIpInfo {
            continent_id: None,
            continent_code: None,
            continent_name: None,
            country_id: None,
            country_iso_code: None,
            country_name: None,
            subdivisions: Vec::new(),
            city_id: None,
            city_name: None,
            metro_code: None,
            postal_code: None,
            timezone: None,
            posix_timezone: None,
            latitude: None,
            longitude: None,
            accuracy_radius: None,
            is_in_european_union: None,
            is_anonymous_proxy: None,
            is_anycast: None,
            is_satellite_provider: None,
            autonomous_system_number: None,
            autonomous_system_organization: None,
        }
    }
}

/// Builds the record of an ASN database answer: the autonomous-system pair,
/// and every other field empty.
pub fn build_asn_info(number: Option<u32>, organization: Option<String>) -> (r: GeoIpInfo)
    ensures
        r.autonomous_system_number == number,
        opt_str(r.autonomous_system_organization) == opt_str(organization),
        r.continent_id is None,
        r.continent_code is None,
        r.continent_name is None,
        r.country_id is None,
        r.country_iso_code is None,
        r.country_name is None,
        r.subdivisions@.len() == 0,
        r.city_id is None,
        r.city_name is None,
        r.metro_code is None,
        r.postal_code is None,
        r.timezone is None,
        r.posix_timezone is None,
        r.latitude is None,
        r.longitude is None,
        r.accuracy_radius is None,
        r.is_in_european_union is None,
        r.is_anonymous_proxy is None,
        r.is_anycast is None,
        r.is_satellite_provider is None,
{
    let mut r = GeoIpInfo::empty();
    r.autonomous_system_number = number;
    r.autonomous_system_organization = organization;
    r
}

/// Builds the record of an Enterprise database answer out of its parts:
/// every name is the requested locale's entry of its name table, the
/// POSIX TZ string is the timezone table's entry for the record's zone, and
/// all other fields pass through.
pub fn build_enterprise_info(
    continent: (Option<u32>, Option<String>, NamePairs),
    country: (Option<u32>, Option<String>, Option<bool>, NamePairs),
    city: (Option<u32>, NamePairs),
    location: (Option<u16>, Option<String>, Option<String>, Option<String>, Option<u16>),
    postal: Option<String>,
    traits: (Option<u32>, Option<String>, Option<bool>, Option<bool>, Option<bool>),
    subdivisions: Vec<(Option<u32>, Option<String>, NamePairs)>,
    locale: &String,
    tz: &TzTable,
) -> (r: GeoIpInfo)
    ensures
        r.continent_id == continent.0,
        opt_str(r.continent_code) == opt_str(continent.1),
        opt_str(r.continent_name) == spec_select(continent.2@, locale@),
        r.country_id == country.0,
        opt_str(r.country_iso_code) == opt_str(country.1),
        r.is_in_european_union == country.2,
        opt_str(r.country_name) == spec_select(country.3@, locale@),
        r.city_id == city.0,
        opt_str(r.city_name) == spec_select(city.1@, locale@),
        r.metro_code == location.0,
        opt_str(r.timezone) == opt_str(location.1),
        opt_str(r.latitude) == opt_str(location.2),
        opt_str(r.longitude) == opt_str(location.3),
        r.accuracy_radius == location.4,
        opt_str(r.postal_code) == opt_str(postal),
        r.autonomous_system_number == traits.0,
        opt_str(r.autonomous_system_organization) == opt_str(traits.1),
        r.is_anonymous_proxy == traits.2,
        r.is_anycast == traits.3,
        r.is_satellite_provider == traits.4,
        match location.1 {
            Some(zone) => opt_bytes(r.posix_timezone) == tz.spec_get(encode_utf8(zone@)),
            None => r.posix_timezone is None,
        },
        r.subdivisions@.len() == subdivisions@.len(),
        forall|i: int|
            0 <= i < subdivisions@.len() ==> {
                &&& (#[trigger] r.subdivisions@[i]).id == subdivisions@[i].0
                &&& opt_str(r.subdivisions@[i].iso_code) == opt_str(subdivisions@[i].1)
                &&& opt_str(r.subdivisions@[i].name) == spec_select(subdivisions@[i].2@, locale@)
            },
{
    let mut subs: Vec<GeoNameSubdivision> = Vec::new();
    let mut i: usize = 0;
    while i < subdivisions.len()
        invariant
            i <= subdivisions@.len(),
            subs@.len() == i,
            forall|j: int|
                0 <= j < i ==> {
                    &&& (#[trigger] subs@[j]).id == subdivisions@[j].0
                    &&& opt_str(subs@[j].iso_code) == opt_str(subdivisions@[j].1)
                    &&& opt_str(subs@[j].name) == spec_select(subdivisions@[j].2@, locale@)
                },
        decreases subdivisions@.len() - i,
    {
        let iso_code = match &subdivisions[i].1 {
            Some(s) => Some(s.clone()),
            None => None,
        };
        subs.push(
            GeoNameSubdivision {
                id: subdivisions[i].0,
                iso_code,
                name: select_name(&subdivisions[i].2, locale),
            },
        );
        i += 1;
    }
    let posix_timezone = match &location.1 {
        Some(zone) => {
            let zb: Vec<u8> = vstd::string::StrSliceExecFns::as_bytes_vec(zone.as_str());
            tz.lookup(zb.as_slice())
        },
        None => None,
    };
    GeoIpInfo {
        continent_id: continent.0,
        continent_code: continent.1,
        continent_name: select_name(&continent.2, locale),
        country_id: country.0,
        country_iso_code: country.1,
        country_name: select_name(&country.3, locale),
        subdivisions: subs,
        city_id: city.0,
        city_name: select_name(&city.1, locale),
        metro_code: location.0,
        postal_code: postal,
        timezone: location.1,
        posix_timezone,
        latitude: location.2,
        longitude: location.3,
        accuracy_radius: location.4,
        is_in_european_union: country.2,
        is_anonymous_proxy: traits.2,
        is_anycast: traits.3,
        is_satellite_provider: traits.4,
        autonomous_system_number: traits.0,
        autonomous_system_organization: traits.1,
    }
}

/// `GeoLite2-ASN`, the database type answered with the ASN schema.
pub open spec fn asn_database_type() -> Seq<u8> {
    seq![71u8, 101, 111, 76, 105, 116, 101, 50, 45, 65, 83, 78]
}

/// Whether a database type string selects the ASN schema.
pub fn is_asn_database(database_type: &[u8]) -> (r: bool)
    ensures
        r == (database_type@ == asn_database_type()),
{
    let mut v: Vec<u8> = Vec::new();
    v.push(71);
    v.push(101);
    v.push(111);
    v.push(76);
    v.push(105);
    v.push(116);
    v.push(101);
    v.push(50);
    v.push(45);
    v.push(65);
    v.push(83);
    v.push(78);
    assert(v@ =~= asn_database_type());
    crate::names::bytes_eq(database_type, v.as_slice())
}

impl MaxMindService {
    /// Resolves an IP address against an edition's current database.  The
    /// edition defaults to the first configured one; an unconfigured edition
    /// fails with `UnknownEdition` and an unloaded one with
    /// `MissingDatabase`, exactly as `get_reader` states.  With a reader at
    /// hand, a database typed `GeoLite2-ASN` is queried with the ASN schema
    /// and anything else with the Enterprise schema; what the query returns
    /// is assembled by `build_asn_info` or `build_enterprise_info`, whose
    /// contracts pin the record to the query's answer.  An address the
    /// database does not know yields nothing.
    pub fn lookup(&self, ip: &str, locale: &String, edition: Option<&[u8]>, tz: &TzTable) -> (r:
        Result<Option<GeoIpInfo>, MaxMindServiceError>)
        requires
            self.wf(),
        ensures
            match r {
                Ok(_) => self.spec_resolved(
                    match edition {
                        Some(e) => Some(e@),
                        None => None,
                    },
                ) matches Some(t) && self.spec_slot(t) matches Some(sv) && sv.reader is Some,
                Err(e) => match e {
                    MaxMindServiceError::UnknownEdition => match self.spec_resolved(
                        match edition {
                            Some(e2) => Some(e2@),
                            None => None,
                        },
                    ) {
                        None => true,
                        Some(t) => self.spec_slot(t) is None,
                    },
                    MaxMindServiceError::MissingDatabase => self.spec_resolved(
                        match edition {
                            Some(e2) => Some(e2@),
                            None => None,
                        },
                    ) matches Some(t) && self.spec_slot(t) matches Some(sv) && sv.reader is None,
                    MaxMindServiceError::MaxMindDb(_) => true,
                    _ => false,
                },
            },
    {
        let reader = match self.get_reader(edition) {
            Ok(h) => h,
            Err(e) => {
                return Err(e);
            },
        };
        if is_asn_database(reader.database_type.as_slice()) {
            match crate::mmdb::lookup_asn(&reader.reader, ip) {
                Err(m) => Err(
                    MaxMindServiceError::MaxMindDb(
                        vstd::string::StrSliceExecFns::as_bytes_vec(m.as_str()),
                    ),
                ),
                Ok(None) => Ok(None),
                Ok(Some((number, organization))) => Ok(
                    Some(build_asn_info(number, organization)),
                ),
            }
        } else {
            match crate::mmdb::lookup_enterprise(&reader.reader, ip) {
                Err(m) => Err(
                    MaxMindServiceError::MaxMindDb(
                        vstd::string::StrSliceExecFns::as_bytes_vec(m.as_str()),
                    ),
                ),
                Ok(None) => Ok(None),
                Ok(Some(record)) => {
                    let continent = crate::mmdb::enterprise_continent(&record);
                    let country = crate::mmdb::enterprise_country(&record);
                    let city = crate::mmdb::enterprise_city(&record);
                    let location = crate::mmdb::enterprise_location(&record);
                    let postal = crate::mmdb::enterprise_postal(&record);
                    let traits = crate::mmdb::enterprise_traits(&record);
                    let subdivisions = crate::mmdb::enterprise_subdivisions(&record);
                    Ok(
                        Some(
                            build_enterprise_info(
                                continent,
                                country,
                                city,
                                location,
                                postal,
                                traits,
                                subdivisions,
                                locale,
                                tz,
                            ),
                        ),
                    )
                },
            }
        }
    }
}

} // verus!
