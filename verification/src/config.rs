//! Building the service configuration from raw settings.
//!
//! The I/O shell reads the environment and hands the raw texts in; the
//! rules live here: the defaults, the comma-separated edition list, the
//! decimal interval, and when auto-update is enabled.  The listen address
//! stays raw text; the shell parses it into a socket address.

use vstd::prelude::*;
use crate::time::{is_digit, digit_val};
use crate::tz::trim_spaces;

verus! {

/// `GeoLite2-City`, the default edition list.
pub open spec fn default_editions_text() -> Seq<u8> {
    seq![71u8, 101, 111, 76, 105, 116, 101, 50, 45, 67, 105, 116, 121]
}

/// The default download URL template, with its `{edition}` placeholder.
pub open spec fn default_download_url() -> Seq<u8> {
    seq![104u8, 116, 116, 112, 115, 58, 47, 47, 100, 111, 119, 110, 108, 111, 97, 100, 46, 109, 97, 120, 109, 105, 110, 100, 46, 99, 111, 109, 47, 103, 101, 111, 105, 112, 47, 100, 97, 116, 97, 98, 97, 115, 101, 115, 47, 123, 101, 100, 105, 116, 105, 111, 110, 125, 47, 100, 111, 119, 110, 108, 111, 97, 100, 63, 115, 117, 102, 102, 105, 120, 61, 116, 97, 114, 46, 103, 122]
}

/// The default listen address.
pub open spec fn default_listen_addr() -> Seq<u8> {
    seq![49u8, 50, 55, 46, 48, 46, 48, 46, 49, 58, 56, 48, 56, 48]
}

/// Executable mirror of [`default_editions_text`].
pub fn default_editions_vec() -> (r: Vec<u8>)
    ensures
        r@ == default_editions_text(),
{
    let mut v: Vec<u8> = Vec::new();
    v.push(71);
    v.push(101);
    v.push(111);
    v.push(76);
    v.push(105);
    v.push(116);
    v.push(101);
    v.push(50);
    v.push(45);
    v.push(67);
    v.push(105);
    v.push(116);
    v.push(121);
    assert(v@ =~= default_editions_text());
    v
}

/// Executable mirror of [`default_download_url`].
#[verifier::rlimit(100)]
pub fn default_download_url_vec() -> (r: Vec<u8>)
    ensures
        r@ == default_download_url(),
{
    let mut v: Vec<u8> = Vec::new();
    v.push(104);
    v.push(116);
    v.push(116);
    v.push(112);
    v.push(115);
    v.push(58);
    v.push(47);
    v.push(47);
    v.push(100);
    v.push(111);
    v.push(119);
    v.push(110);
    v.push(108);
    v.push(111);
    v.push(97);
    v.push(100);
    v.push(46);
    v.push(109);
    v.push(97);
    v.push(120);
    v.push(109);
    v.push(105);
    v.push(110);
    v.push(100);
    v.push(46);
    v.push(99);
    v.push(111);
    v.push(109);
    v.push(47);
    v.push(103);
    v.push(101);
    v.push(111);
    v.push(105);
    v.push(112);
    v.push(47);
    v.push(100);
    v.push(97);
    v.push(116);
    v.push(97);
    v.push(98);
    v.push(97);
    v.push(115);
    v.push(101);
    v.push(115);
    v.push(47);
    v.push(123);
    v.push(101);
    v.push(100);
    v.push(105);
    v.push(116);
    v.push(105);
    v.push(111);
    v.push(110);
    v.push(125);
    v.push(47);
    v.push(100);
    v.push(111);
    v.push(119);
    v.push(110);
    v.push(108);
    v.push(111);
    v.push(97);
    v.push(100);
    v.push(63);
    v.push(115);
    v.push(117);
    v.push(102);
    v.push(102);
    v.push(105);
    v.push(120);
    v.push(61);
    v.push(116);
    v.push(97);
    v.push(114);
    v.push(46);
    v.push(103);
    v.push(122);
    assert(v@ =~= default_download_url());
    v
}

/// Executable mirror of [`default_listen_addr`].
pub fn default_listen_addr_vec() -> (r: Vec<u8>)
    ensures
        r@ == default_listen_addr(),
{
    let mut v: Vec<u8> = Vec::new();
    v.push(49);
    v.push(50);
    v.push(55);
    v.push(46);
    v.push(48);
    v.push(46);
    v.push(48);
    v.push(46);
    v.push(49);
    v.push(58);
    v.push(56);
    v.push(48);
    v.push(56);
    v.push(48);
    assert(v@ =~= default_listen_addr());
    v
}

/// The position of the first comma, if any.
pub open spec fn first_comma(s: Seq<u8>) -> Option<int>
    decreases s.len(),
{
    if s.len() == 0 {
        None
    } else if s[0] == 44 {
        Some(0)
    } else {
        match first_comma(s.drop_first()) {
            Some(i) => Some(i + 1),
            None => None,
        }
    }
}

pub(crate) proof fn lemma_first_comma_at(s: Seq<u8>, i: int)
    requires
        0 <= i < s.len(),
        s[i] == 44,
        forall|j: int| 0 <= j < i ==> s[j] != 44,
    ensures
        first_comma(s) == Some(i),
    decreases i,
{
    if i > 0 {
        lemma_first_comma_at(s.drop_first(), i - 1);
    }
}

pub(crate) proof fn lemma_first_comma_none(s: Seq<u8>)
    requires
        forall|j: int| 0 <= j < s.len() ==> s[j] != 44,
    ensures
        first_comma(s) is None,
    decreases s.len(),
{
    if s.len() > 0 {
        lemma_first_comma_none(s.drop_first());
    }
}

/// The comma-separated fields of a text, each trimmed of surrounding ASCII
/// whitespace.  One more field than commas: an empty text is one empty
/// field.
pub open spec fn spec_split_csv(s: Seq<u8>) -> Seq<Seq<u8>>
    decreases s.len(),
{
    match first_comma(s) {
        None => seq![trim_spaces(s)],
        Some(i) => if 0 <= i < s.len() {
            seq![trim_spaces(s.take(i))] + spec_split_csv(s.skip(i + 1))
        } else {
            seq![trim_spaces(s)]
        },
    }
}

/// Splits a comma-separated list, executable mirror of [`spec_split_csv`].
pub fn split_csv(s: &[u8]) -> (r: Vec<Vec<u8>>)
    ensures
        r@.len() == spec_split_csv(s@).len(),
        forall|i: int| 0 <= i < r@.len() ==> (#[trigger] r@[i])@ == spec_split_csv(s@)[i],
{
    let mut out: Vec<Vec<u8>> = Vec::new();
    let mut pos: usize = 0;
    let n: usize = s.len();
    proof {
        assert(s@.skip(0) =~= s@);
        assert(Seq::<Vec<u8>>::empty().map_values(|v: Vec<u8>| v@) =~= Seq::<Seq<u8>>::empty());
    }
    loop
        invariant_except_break
            spec_split_csv(s@) =~= out@.map_values(|v: Vec<u8>| v@) + spec_split_csv(
                s@.skip(pos as int),
            ),
        invariant
            pos <= n,
            n == s@.len(),
        ensures
            spec_split_csv(s@) =~= out@.map_values(|v: Vec<u8>| v@),
        decreases n - pos,
    {
        let ghost rest = s@.skip(pos as int);
        let ghost outpre = out@;
        let mut j: usize = pos;
        while j < n && s[j] != 44
            invariant
                pos <= j <= n,
                n == s@.len(),
                forall|k: int| pos <= k < j ==> s@[k] != 44,
            decreases n - j,
        {
            j += 1;
        }
        proof {
            assert forall|k: int| 0 <= k < j - pos implies rest[k] != 44 by {
                assert(rest[k] == s@[k + pos]);
            }
            if j < n {
                assert(rest[j - pos] == s@[j as int]);
                lemma_first_comma_at(rest, j - pos);
            } else {
                lemma_first_comma_none(rest);
            }
        }
        let part: &[u8] = vstd::slice::slice_subrange(s, pos, j);
        let trimmed = crate::tz::trim_ascii(part);
        out.push(trimmed);
        proof {
            assert(part@ =~= rest.take(j - pos));
            assert(out@.map_values(|v: Vec<u8>| v@) =~= outpre.map_values(|v: Vec<u8>| v@).push(
                trim_spaces(part@),
            ));
        }
        if j == n {
            proof {
                assert(rest.take(j - pos) =~= rest);
                assert(spec_split_csv(rest) =~= seq![trim_spaces(rest)]);
                assert(out@.map_values(|v: Vec<u8>| v@) =~= outpre.map_values(|v: Vec<u8>| v@)
                    + spec_split_csv(rest));
            }
            break;
        }
        proof {
            assert(rest.skip(j - pos + 1) =~= s@.skip(j + 1));
            assert(spec_split_csv(rest) =~= seq![trim_spaces(rest.take(j - pos))]
                + spec_split_csv(rest.skip(j - pos + 1)));
        }
        pos = j + 1;
    }
    proof {
        assert(out@.len() == out@.map_values(|v: Vec<u8>| v@).len());
        assert forall|i: int| 0 <= i < out@.len() implies (#[trigger] out@[i])@ == spec_split_csv(
            s@,
        )[i] by {
            assert(out@.map_values(|v: Vec<u8>| v@)[i] == out@[i]@);
        }
    }
    out
}

/// The value of a decimal numeral.
pub open spec fn dec_value(s: Seq<u8>) -> int
    decreases s.len(),
{
    if s.len() == 0 {
        0
    } else {
        dec_value(s.take(s.len() - 1)) * 10 + digit_val(s[s.len() - 1])
    }
}

/// What a decimal text means as a `u64`: defined exactly for a non-empty
/// run of digits whose value fits.
pub open spec fn spec_parse_u64(s: Seq<u8>) -> Option<int> {
    if s.len() > 0 && (forall|i: int| 0 <= i < s.len() ==> is_digit(#[trigger] s[i])) && dec_value(
        s,
    ) <= u64::MAX {
        Some(dec_value(s))
    } else {
        None
    }
}

proof fn lemma_dec_value_nonneg(s: Seq<u8>)
    requires
        forall|i: int| 0 <= i < s.len() ==> is_digit(#[trigger] s[i]),
    ensures
        dec_value(s) >= 0,
    decreases s.len(),
{
    if s.len() > 0 {
        assert forall|i: int| 0 <= i < s.len() - 1 implies is_digit(
            #[trigger] s.take(s.len() - 1)[i],
        ) by {
            assert(s.take(s.len() - 1)[i] == s[i]);
        }
        lemma_dec_value_nonneg(s.take(s.len() - 1));
    }
}

proof fn lemma_dec_value_monotone(s: Seq<u8>, m: int)
    requires
        forall|i: int| 0 <= i < s.len() ==> is_digit(#[trigger] s[i]),
        0 <= m <= s.len(),
    ensures
        dec_value(s.take(m)) <= dec_value(s),
    decreases s.len() - m,
{
    if m == s.len() {
        assert(s.take(m) =~= s);
    } else {
        lemma_dec_value_monotone(s, m + 1);
        assert forall|i: int| 0 <= i < m implies is_digit(#[trigger] s.take(m)[i]) by {
            assert(s.take(m)[i] == s[i]);
        }
        lemma_dec_value_nonneg(s.take(m));
        assert(s.take(m + 1).take(m) =~= s.take(m));
        assert(dec_value(s.take(m + 1)) == dec_value(s.take(m)) * 10 + digit_val(s.take(m + 1)[m]));
        assert(s.take(m + 1)[m] == s[m]);
        assert(dec_value(s.take(m)) <= dec_value(s.take(m + 1)));
    }
}

/// Reads a decimal `u64`, executable mirror of [`spec_parse_u64`].
pub fn parse_u64_dec(s: &[u8]) -> (r: Option<u64>)
    ensures
        match r {
            Some(v) => spec_parse_u64(s@) == Some(v as int),
            None => spec_parse_u64(s@) is None,
        },
{
    if s.len() == 0 {
        return None;
    }
    let mut acc: u64 = 0;
    let mut i: usize = 0;
    while i < s.len()
        invariant
            i <= s@.len(),
            forall|k: int| 0 <= k < i ==> is_digit(#[trigger] s@[k]),
            acc as int == dec_value(s@.take(i as int)),
        decreases s@.len() - i,
    {
        let c: u8 = s[i];
        if c < 48 || c > 57 {
            assert(!is_digit(s@[i as int]));
            return None;
        }
        let d: u64 = (c - 48) as u64;
        proof {
            assert(s@.take(i + 1).take(i as int) =~= s@.take(i as int));
            assert(s@.take(i + 1)[i as int] == s@[i as int]);
        }
        if acc > (u64::MAX - d) / 10 {
            proof {
                assert(dec_value(s@.take(i + 1)) == acc * 10 + d);
                assert(dec_value(s@.take(i + 1)) > u64::MAX);
                if forall|k: int| 0 <= k < s@.len() ==> is_digit(#[trigger] s@[k]) {
                    lemma_dec_value_monotone(s@, i + 1);
                    assert(dec_value(s@) > u64::MAX);
                }
            }
            return None;
        }
        acc = acc * 10 + d;
        i += 1;
    }
    proof {
        assert(s@.take(s@.len() as int) =~= s@);
    }
    Some(acc)
}

/// The service configuration, all raw values.
pub struct AppConfig {
    pub listen_addr: Vec<u8>,
    pub data_dir: Vec<u8>,
    pub maxmind_account_id: Option<Vec<u8>>,
    pub maxmind_license_key: Option<Vec<u8>>,
    pub maxmind_bearer_token: Option<Vec<u8>>,
    pub maxmind_editions: Vec<Vec<u8>>,
    pub maxmind_download_url: Vec<u8>,
    pub auto_update: bool,
    pub auto_update_interval: u64,
    pub api_key: Option<Vec<u8>>,
    pub recaptcha_site_key: Option<Vec<u8>>,
    pub recaptcha_secret_key: Option<Vec<u8>>,
    pub osm_tiles_url: Option<Vec<u8>>,
    pub tzdata_download_url: Option<Vec<u8>>,
    pub tzdata_bearer_token: Option<Vec<u8>>,
    pub tzdata_auto_update_interval: Option<u64>,
    pub zic_path: Option<Vec<u8>>,
}

/// What failed while reading the settings.
#[derive(Debug)]
pub enum ConfigError {
    /// The data directory must be set.
    MissingDataDir,
    /// Every configured edition must be a tag, `[A-Za-z0-9-]+`.
    InvalidEdition,
    /// The auto-update interval must be a decimal number of hours.
    BadInterval,
}

/// The edition list text in force: the given one, or the default.
pub open spec fn effective_editions_text(maxmind_editions: Option<Vec<u8>>) -> Seq<u8> {
    match maxmind_editions {
        Some(v) => v@,
        None => default_editions_text(),
    }
}

/// The view of an optional byte text.
pub open spec fn opt_view(o: Option<Vec<u8>>) -> Option<Seq<u8>> {
    match o {
        Some(v) => Some(v@),
        None => None,
    }
}

/// Builds the configuration from raw environment values.  The edition list
/// is the comma-separated, whitespace-trimmed `MAXMIND_EDITIONS` (default
/// `GeoLite2-City`), every entry a tag — so the archive index's tag grammar
/// holds for each from the start; auto-update is on exactly when an account
/// id or an explicit download URL is set; the interval defaults to 24 hours
/// and must be decimal; the data directory is required.
pub fn build_config(
    listen_addr: Option<Vec<u8>>,
    data_dir: Option<Vec<u8>>,
    maxmind_account_id: Option<Vec<u8>>,
    maxmind_license_key: Option<Vec<u8>>,
    maxmind_bearer_token: Option<Vec<u8>>,
    maxmind_editions: Option<Vec<u8>>,
    maxmind_download_url: Option<Vec<u8>>,
    auto_update_interval: Option<Vec<u8>>,
    api_key: Option<Vec<u8>>,
    recaptcha_site_key: Option<Vec<u8>>,
    recaptcha_secret_key: Option<Vec<u8>>,
    osm_tiles_url: Option<Vec<u8>>,
    tzdata_download_url: Option<Vec<u8>>,
    tzdata_bearer_token: Option<Vec<u8>>,
    tzdata_auto_update_interval: Option<u64>,
    zic_path: Option<Vec<u8>>,
) -> (r: Result<AppConfig, ConfigError>)
    ensures
        match r {
            Ok(c) => {
                &&& data_dir matches Some(d) && c.data_dir@ == d@
                &&& c.listen_addr@ == (match listen_addr {
                    Some(v) => v@,
                    None => default_listen_addr(),
                })
                &&& c.maxmind_editions@.len() == spec_split_csv(
                    effective_editions_text(maxmind_editions),
                ).len()
                &&& (forall|i: int|
                    0 <= i < c.maxmind_editions@.len()
                        ==> (#[trigger] c.maxmind_editions@[i])@ == spec_split_csv(
                        effective_editions_text(maxmind_editions),
                    )[i])
                &&& (forall|i: int|
                    0 <= i < c.maxmind_editions@.len() ==> crate::names::valid_tag(
                        (#[trigger] c.maxmind_editions@[i])@,
                    ))
                &&& c.auto_update == (maxmind_account_id is Some || maxmind_download_url is Some)
                &&& c.maxmind_download_url@ == (match maxmind_download_url {
                    Some(v) => v@,
                    None => default_download_url(),
                })
                &&& Some(c.auto_update_interval as int) == spec_parse_u64(
                    match auto_update_interval {
                        Some(v) => v@,
                        None => seq![50u8, 52],
                    },
                )
                &&& opt_view(c.maxmind_account_id) == opt_view(maxmind_account_id)
                &&& opt_view(c.maxmind_license_key) == opt_view(maxmind_license_key)
                &&& opt_view(c.maxmind_bearer_token) == opt_view(maxmind_bearer_token)
                &&& opt_view(c.api_key) == opt_view(api_key)
                &&& opt_view(c.recaptcha_site_key) == opt_view(recaptcha_site_key)
                &&& opt_view(c.recaptcha_secret_key) == opt_view(recaptcha_secret_key)
                &&& opt_view(c.osm_tiles_url) == opt_view(osm_tiles_url)
                &&& opt_view(c.tzdata_download_url) == opt_view(tzdata_download_url)
                &&& opt_view(c.tzdata_bearer_token) == opt_view(tzdata_bearer_token)
                &&& c.tzdata_auto_update_interval == tzdata_auto_update_interval
                &&& opt_view(c.zic_path) == opt_view(zic_path)
            },
            Err(ConfigError::MissingDataDir) => data_dir is None,
            Err(ConfigError::InvalidEdition) => !(forall|i: int|
                0 <= i < spec_split_csv(effective_editions_text(maxmind_editions)).len()
                    ==> crate::names::valid_tag(
                    #[trigger] spec_split_csv(effective_editions_text(maxmind_editions))[i],
                )),
            Err(ConfigError::BadInterval) => spec_parse_u64(
                match auto_update_interval {
                    Some(v) => v@,
                    None => seq![50u8, 52],
                },
            ) is None,
        },
{
    let data_dir = match data_dir {
        Some(d) => d,
        None => {
            return Err(ConfigError::MissingDataDir);
        },
    };
    let listen_addr = match listen_addr {
        Some(v) => v,
        None => default_listen_addr_vec(),
    };
    let editions_text: Vec<u8> = match &maxmind_editions {
        Some(v) => vstd::slice::slice_to_vec(v.as_slice()),
        None => default_editions_vec(),
    };
    assert(editions_text@ == effective_editions_text(maxmind_editions));
    let editions = split_csv(editions_text.as_slice());
    let ghost fields = spec_split_csv(effective_editions_text(maxmind_editions));
    let mut k: usize = 0;
    while k < editions.len()
        invariant
            k <= editions@.len(),
            fields == spec_split_csv(effective_editions_text(maxmind_editions)),
            editions@.len() == fields.len(),
            forall|i: int| 0 <= i < editions@.len() ==> (#[trigger] editions@[i])@ == fields[i],
            forall|i: int| 0 <= i < k ==> crate::names::valid_tag((#[trigger] editions@[i])@),
        decreases editions@.len() - k,
    {
        if !crate::names::is_valid_tag(editions[k].as_slice()) {
            assert(!crate::names::valid_tag(fields[k as int]));
            assert(!(forall|i: int|
                0 <= i < spec_split_csv(effective_editions_text(maxmind_editions)).len()
                    ==> crate::names::valid_tag(
                    #[trigger] spec_split_csv(effective_editions_text(maxmind_editions))[i],
                )));
            return Err(ConfigError::InvalidEdition);
        }
        k += 1;
    }
    let auto_update = maxmind_account_id.is_some() || maxmind_download_url.is_some();
    let url = match maxmind_download_url {
        Some(v) => v,
        None => default_download_url_vec(),
    };
    let interval_text: Vec<u8> = match auto_update_interval {
        Some(v) => v,
        None => {
            let mut v: Vec<u8> = Vec::new();
            v.push(50);
            v.push(52);
            assert(v@ =~= seq![50u8, 52]);
            v
        },
    };
    let interval = match parse_u64_dec(interval_text.as_slice()) {
        Some(n) => n,
        None => {
            return Err(ConfigError::BadInterval);
        },
    };
    Ok(
        AppConfig {
            listen_addr,
            data_dir,
            maxmind_account_id,
            maxmind_license_key,
            maxmind_bearer_token,
            maxmind_editions: editions,
            maxmind_download_url: url,
            auto_update,
            auto_update_interval: interval,
            api_key,
            recaptcha_site_key,
            recaptcha_secret_key,
            osm_tiles_url,
            tzdata_download_url,
            tzdata_bearer_token,
            tzdata_auto_update_interval,
            zic_path,
        },
    )
}

/// The upstream authentication for the GeoIP editions: the bearer token if
/// one is set, else basic authentication with the account id and licence
/// key, else none.
pub fn make_archive_auth(config: &AppConfig) -> (r: crate::store::ArchiveFileAuth)
    ensures
        match (&config.maxmind_bearer_token, &config.maxmind_account_id) {
            (Some(t), _) => r matches crate::store::ArchiveFileAuth::Bearer(b) && b@ == t@,
            (None, Some(u)) => r matches crate::store::ArchiveFileAuth::Basic(user, pass)
                && user@ == u@ && opt_view(pass) == opt_view(config.maxmind_license_key),
            (None, None) => r is NoAuth,
        },
{
    if let Some(t) = &config.maxmind_bearer_token {
        crate::store::ArchiveFileAuth::Bearer(vstd::slice::slice_to_vec(t.as_slice()))
    } else if let Some(u) = &config.maxmind_account_id {
        let pass = match &config.maxmind_license_key {
            Some(k) => Some(vstd::slice::slice_to_vec(k.as_slice())),
            None => None,
        };
        crate::store::ArchiveFileAuth::Basic(vstd::slice::slice_to_vec(u.as_slice()), pass)
    } else {
        crate::store::ArchiveFileAuth::NoAuth
    }
}

/// The upstream authentication for the timezone database: the tzdata bearer
/// token if one is set, else none.
pub fn make_tzdata_auth(config: &AppConfig) -> (r: crate::store::ArchiveFileAuth)
    ensures
        match &config.tzdata_bearer_token {
            Some(t) => r matches crate::store::ArchiveFileAuth::Bearer(b) && b@ == t@,
            None => r is NoAuth,
        },
{
    match &config.tzdata_bearer_token {
        Some(t) => crate::store::ArchiveFileAuth::Bearer(vstd::slice::slice_to_vec(t.as_slice())),
        None => crate::store::ArchiveFileAuth::NoAuth,
    }
}

/// The index page's context: what the browser needs to render.
pub struct IndexPageCtx {
    pub recaptcha_site_key: Option<Vec<u8>>,
    pub osm_tiles_url: Option<Vec<u8>>,
}

/// Builds the index page context out of the configuration.
pub fn index_ctx(config: &AppConfig) -> (r: IndexPageCtx)
    ensures
        opt_view(r.recaptcha_site_key) == opt_view(config.recaptcha_site_key),
        opt_view(r.osm_tiles_url) == opt_view(config.osm_tiles_url),
{
    IndexPageCtx {
        recaptcha_site_key: match &config.recaptcha_site_key {
            Some(v) => Some(vstd::slice::slice_to_vec(v.as_slice())),
            None => None,
        },
        osm_tiles_url: match &config.osm_tiles_url {
            Some(v) => Some(vstd::slice::slice_to_vec(v.as_slice())),
            None => None,
        },
    }
}

} // verus!
