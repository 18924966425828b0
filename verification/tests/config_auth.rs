//! Configuration building, authentication decisions, client address.

use geoip_service::auth::{
    auth_precheck, first_forwarded_entry, interpret_recaptcha_response, pick_client_ip,
    recaptcha_outcome_allows, recaptcha_plan, ApiKeyAuthMode, ApiKeyOrRecaptchaAuthMode,
    AuthDecision, RecaptchaServiceError,
};
use geoip_service::config::{build_config, make_archive_auth, make_tzdata_auth, split_csv,
    parse_u64_dec, AppConfig, ConfigError};
use geoip_service::store::ArchiveFileAuth;

fn minimal_config() -> AppConfig {
    build_config(
        None,
        Some(b"/data".to_vec()),
        None,
        None,
        None,
        None,
        None,
        None,
        None,
        None,
        None,
        None,
        None,
        None,
        None,
        None,
    )
    .expect("valid")
}

#[test]
fn defaults() {
    let c = minimal_config();
    assert_eq!(c.listen_addr, b"127.0.0.1:8080".to_vec());
    assert_eq!(c.data_dir, b"/data".to_vec());
    assert_eq!(c.maxmind_editions, vec![b"GeoLite2-City".to_vec()]);
    assert_eq!(
        c.maxmind_download_url,
        b"https://download.maxmind.com/geoip/databases/{edition}/download?suffix=tar.gz".to_vec()
    );
    assert!(!c.auto_update);
    assert_eq!(c.auto_update_interval, 24);
}

#[test]
fn data_dir_is_required() {
    let r = build_config(
        None, None, None, None, None, None, None, None, None, None, None, None, None, None, None,
        None,
    );
    assert!(matches!(r, Err(ConfigError::MissingDataDir)));
}

#[test]
fn editions_must_be_tags() {
    let r = build_config(
        None,
        Some(b"/data".to_vec()),
        None,
        None,
        None,
        Some(b"GeoLite2-City, Geo_Lite".to_vec()),
        None,
        None,
        None,
        None,
        None,
        None,
        None,
        None,
        None,
        None,
    );
    assert!(matches!(r, Err(ConfigError::InvalidEdition)));
    let empty_entry = build_config(
        None,
        Some(b"/data".to_vec()),
        None,
        None,
        None,
        Some(b"GeoLite2-City,,GeoLite2-ASN".to_vec()),
        None,
        None,
        None,
        None,
        None,
        None,
        None,
        None,
        None,
        None,
    );
    assert!(matches!(empty_entry, Err(ConfigError::InvalidEdition)));
}

#[test]
fn interval_must_be_decimal() {
    let r = build_config(
        None,
        Some(b"/data".to_vec()),
        None,
        None,
        None,
        None,
        None,
        Some(b"day".to_vec()),
        None,
        None,
        None,
        None,
        None,
        None,
        None,
        None,
    );
    assert!(matches!(r, Err(ConfigError::BadInterval)));
}

#[test]
fn editions_split_and_trim() {
    let c = build_config(
        None,
        Some(b"/data".to_vec()),
        None,
        None,
        None,
        Some(b" GeoLite2-City , GeoLite2-ASN,GeoLite2-Country".to_vec()),
        None,
        Some(b"12".to_vec()),
        None,
        None,
        None,
        None,
        None,
        None,
        None,
        None,
    )
    .expect("valid");
    assert_eq!(
        c.maxmind_editions,
        vec![
            b"GeoLite2-City".to_vec(),
            b"GeoLite2-ASN".to_vec(),
            b"GeoLite2-Country".to_vec()
        ]
    );
    assert_eq!(c.auto_update_interval, 12);
}

#[test]
fn auto_update_turns_on_with_account_or_url() {
    let with_account = build_config(
        None,
        Some(b"/data".to_vec()),
        Some(b"12345".to_vec()),
        None,
        None,
        None,
        None,
        None,
        None,
        None,
        None,
        None,
        None,
        None,
        None,
        None,
    )
    .expect("valid");
    assert!(with_account.auto_update);
    let with_url = build_config(
        None,
        Some(b"/data".to_vec()),
        None,
        None,
        None,
        None,
        Some(b"https://example.org/{edition}.tar.gz".to_vec()),
        None,
        None,
        None,
        None,
        None,
        None,
        None,
        None,
        None,
    )
    .expect("valid");
    assert!(with_url.auto_update);
    assert_eq!(
        with_url.maxmind_download_url,
        b"https://example.org/{edition}.tar.gz".to_vec()
    );
}

#[test]
fn csv_and_decimal_helpers() {
    let fields = split_csv(b"a, b ,,c");
    assert_eq!(
        fields,
        vec![b"a".to_vec(), b"b".to_vec(), b"".to_vec(), b"c".to_vec()]
    );
    assert_eq!(split_csv(b""), vec![b"".to_vec()]);
    assert_eq!(parse_u64_dec(b"24"), Some(24));
    assert_eq!(parse_u64_dec(b"0"), Some(0));
    assert_eq!(parse_u64_dec(b"18446744073709551615"), Some(u64::MAX));
    assert_eq!(parse_u64_dec(b"18446744073709551616"), None); // one past the top
    assert_eq!(parse_u64_dec(b""), None);
    assert_eq!(parse_u64_dec(b"12h"), None);
}

#[test]
fn upstream_auth_prefers_the_bearer_token() {
    let mut c = minimal_config();
    c.maxmind_account_id = Some(b"12345".to_vec());
    c.maxmind_license_key = Some(b"licence-key".to_vec());
    c.maxmind_bearer_token = Some(b"bearer-token".to_vec());
    match make_archive_auth(&c) {
        ArchiveFileAuth::Bearer(tok) => assert_eq!(tok, b"bearer-token".to_vec()),
        _ => panic!("expected bearer auth"),
    }
    c.maxmind_bearer_token = None;
    match make_archive_auth(&c) {
        ArchiveFileAuth::Basic(user, pass) => {
            assert_eq!(user, b"12345".to_vec());
            assert_eq!(pass, Some(b"licence-key".to_vec()));
        },
        _ => panic!("expected basic auth"),
    }
    c.maxmind_account_id = None;
    assert!(matches!(make_archive_auth(&c), ArchiveFileAuth::NoAuth));
    assert!(matches!(make_tzdata_auth(&c), ArchiveFileAuth::NoAuth));
    c.tzdata_bearer_token = Some(b"bearer-token".to_vec());
    assert!(matches!(make_tzdata_auth(&c), ArchiveFileAuth::Bearer(_)));
}

#[test]
fn api_key_check() {
    let key = b"expected-api-key".to_vec();
    // no key configured: open
    assert!(matches!(
        auth_precheck::<ApiKeyAuthMode>(None, None, false),
        AuthDecision::Allow
    ));
    // right key
    assert!(matches!(
        auth_precheck::<ApiKeyAuthMode>(Some(&key), Some(&key.clone()), false),
        AuthDecision::Allow
    ));
    // wrong key, no recaptcha accepted
    assert!(matches!(
        auth_precheck::<ApiKeyAuthMode>(Some(&key), Some(&b"wrong".to_vec()), true),
        AuthDecision::Deny
    ));
    // missing header
    assert!(matches!(
        auth_precheck::<ApiKeyAuthMode>(Some(&key), None, false),
        AuthDecision::Deny
    ));
}

#[test]
fn recaptcha_fallback() {
    let key = b"expected-api-key".to_vec();
    assert!(matches!(
        auth_precheck::<ApiKeyOrRecaptchaAuthMode>(Some(&key), Some(&b"wrong".to_vec()), true),
        AuthDecision::TryRecaptcha
    ));
    assert!(matches!(
        auth_precheck::<ApiKeyOrRecaptchaAuthMode>(Some(&key), None, false),
        AuthDecision::Deny
    ));
    assert!(recaptcha_outcome_allows(&Ok(true)));
    assert!(!recaptcha_outcome_allows(&Ok(false)));
    assert!(!recaptcha_outcome_allows(&Err(RecaptchaServiceError::HttpError(500))));
}

#[test]
fn recaptcha_call_plan() {
    assert!(recaptcha_plan(None, b"tok").is_none());
    let req = recaptcha_plan(Some(&b"verifier-secret".to_vec()), b"tok").expect("planned");
    assert_eq!(req.secret, b"verifier-secret".to_vec());
    assert_eq!(req.response, b"tok".to_vec());
    assert!(req.remote_ip.is_none());
}

#[test]
fn recaptcha_response_reading() {
    assert!(matches!(
        interpret_recaptcha_response(503, Ok(true)),
        Err(RecaptchaServiceError::HttpError(503))
    ));
    assert_eq!(interpret_recaptcha_response(200, Ok(true)).unwrap(), true);
    assert_eq!(interpret_recaptcha_response(200, Ok(false)).unwrap(), false);
    assert!(matches!(
        interpret_recaptcha_response(200, Err(b"bad json".to_vec())),
        Err(RecaptchaServiceError::Reqwest(_))
    ));
}

#[test]
fn client_address_selection() {
    assert_eq!(first_forwarded_entry(b" 203.0.113.7 , 10.0.0.1"), b"203.0.113.7".to_vec());
    assert_eq!(first_forwarded_entry(b"203.0.113.7"), b"203.0.113.7".to_vec());
    assert_eq!(
        pick_client_ip(Some(b"1.1.1.1".to_vec()), Some(b"2.2.2.2".to_vec()), None),
        Some(b"1.1.1.1".to_vec())
    );
    assert_eq!(
        pick_client_ip(None, Some(b"2.2.2.2".to_vec()), Some(b"3.3.3.3".to_vec())),
        Some(b"2.2.2.2".to_vec())
    );
    assert_eq!(pick_client_ip(None, None, Some(b"3.3.3.3".to_vec())), Some(b"3.3.3.3".to_vec()));
    assert_eq!(pick_client_ip(None, None, None), None);
}

#[test]
fn index_page_context() {
    let mut c = minimal_config();
    c.recaptcha_site_key = Some(b"site".to_vec());
    let ctx = geoip_service::config::index_ctx(&c);
    assert_eq!(ctx.recaptcha_site_key, Some(b"site".to_vec()));
    assert!(ctx.osm_tiles_url.is_none());
}
