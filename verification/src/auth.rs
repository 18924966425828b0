//! Request authentication and client-address selection.
//!
//! A request is let through either by the configured API key, compared in
//! constant time against the presented bearer token, or by a reCAPTCHA
//! token verified upstream.  Which of the two an endpoint accepts is its
//! authentication mode.  The upstream verification call itself is the I/O
//! shell's part; the decisions before and after it are here, as is the rule
//! picking the client address out of the forwarding headers.

use vstd::prelude::*;
use crate::config::{first_comma, lemma_first_comma_at, lemma_first_comma_none};
use crate::tz::trim_spaces;

verus! {

/// What an endpoint accepts as authentication.
pub trait AuthMode {
    /// Whether the API key is accepted.
    spec fn spec_accept_api_key() -> bool;

    /// Whether a reCAPTCHA token is accepted.
    spec fn spec_accept_recaptcha_token() -> bool;

    /// Executable mirror of [`AuthMode::spec_accept_api_key`].
    fn accept_api_key() -> (b: bool)
        ensures
            b == Self::spec_accept_api_key(),
    ;

    /// Executable mirror of [`AuthMode::spec_accept_recaptcha_token`].
    fn accept_recaptcha_token() -> (b: bool)
        ensures
            b == Self::spec_accept_recaptcha_token(),
    ;
}

/// Accepts the API key only.
pub struct ApiKeyAuthMode;

impl AuthMode for ApiKeyAuthMode {
    open spec fn spec_accept_api_key() -> bool {
        true
    }

    open spec fn spec_accept_recaptcha_token() -> bool {
        false
    }

    fn accept_api_key() -> bool {
        true
    }

    fn accept_recaptcha_token() -> bool {
        false
    }
}

/// Accepts the API key or a reCAPTCHA token.
pub struct ApiKeyOrRecaptchaAuthMode;

impl AuthMode for ApiKeyOrRecaptchaAuthMode {
    open spec fn spec_accept_api_key() -> bool {
        true
    }

    open spec fn spec_accept_recaptcha_token() -> bool {
        true
    }

    fn accept_api_key() -> bool {
        true
    }

    fn accept_recaptcha_token() -> bool {
        true
    }
}

/// Proof that a request passed a mode's authentication.
pub struct Auth<Mode: AuthMode> {
    pub _phantom: core::marker::PhantomData<Mode>,
}

/// The proof for the API-key-only mode.
pub type ApiKeyAuth = Auth<ApiKeyAuthMode>;

/// The proof for the API-key-or-reCAPTCHA mode.
pub type ApiKeyOrRecaptchaAuth = Auth<ApiKeyOrRecaptchaAuthMode>;

/// Relies on constant_time_eq's `constant_time_eq`: equality of the two
/// byte strings, computed without data-dependent timing for equal lengths.
#[verifier::external_body]
fn ct_bytes_eq(a: &[u8], b: &[u8]) -> (r: bool)
    ensures
        r == (a@ == b@),
{
    constant_time_eq::constant_time_eq(a, b)
}

/// Where an authentication attempt stands before any network call.
#[derive(Debug)]
pub enum AuthDecision {
    /// The request is authenticated.
    Allow,
    /// Ask the upstream verifier about the presented reCAPTCHA token.
    TryRecaptcha,
    /// The request is refused.
    Deny,
}

/// The decision before the verifier is asked, as a mode's rule: a mode
/// taking API keys allows the request when no key is configured, or when
/// the presented bearer token equals the configured key; failing that, a
/// mode taking reCAPTCHA defers to the verifier when a token is present;
/// everything else is refused.
pub open spec fn spec_auth_precheck<Mode: AuthMode>(
    configured_key: Option<Seq<u8>>,
    bearer: Option<Seq<u8>>,
    recaptcha_token_present: bool,
) -> AuthDecision {
    if Mode::spec_accept_api_key() && configured_key is None {
        AuthDecision::Allow
    } else if Mode::spec_accept_api_key() && bearer is Some && bearer == configured_key {
        AuthDecision::Allow
    } else if Mode::spec_accept_recaptcha_token() && recaptcha_token_present {
        AuthDecision::TryRecaptcha
    } else {
        AuthDecision::Deny
    }
}

/// Decides a request before any network call, executable mirror of
/// [`spec_auth_precheck`].  The key comparison runs in constant time.
pub fn auth_precheck<Mode: AuthMode>(
    configured_key: Option<&Vec<u8>>,
    bearer: Option<&Vec<u8>>,
    recaptcha_token_present: bool,
) -> (r: AuthDecision)
    ensures
        r == spec_auth_precheck::<Mode>(
            match configured_key {
                Some(k) => Some(k@),
                None => None,
            },
            match bearer {
                Some(b) => Some(b@),
                None => None,
            },
            recaptcha_token_present,
        ),
{
    if Mode::accept_api_key() {
        match configured_key {
            None => {
                return AuthDecision::Allow;
            },
            Some(k) => {
                if let Some(b) = bearer {
                    if ct_bytes_eq(b.as_slice(), k.as_slice()) {
                        return AuthDecision::Allow;
                    }
                }
            },
        }
    }
    if Mode::accept_recaptcha_token() && recaptcha_token_present {
        AuthDecision::TryRecaptcha
    } else {
        AuthDecision::Deny
    }
}

/// Whether the verifier's answer lets the request through: only a positive
/// verification does; a negative answer or a failed call refuses it.
pub fn recaptcha_outcome_allows(outcome: &Result<bool, RecaptchaServiceError>) -> (r: bool)
    ensures
        r == (outcome matches Ok(true)),
{
    match outcome {
        Ok(true) => true,
        _ => false,
    }
}

/// The form sent to the reCAPTCHA verifier.
pub struct RecaptchaVerifyRequest {
    pub secret: Vec<u8>,
    pub response: Vec<u8>,
    pub remote_ip: Option<Vec<u8>>,
}

/// Failures of the reCAPTCHA verifier call.
#[derive(Debug)]
pub enum RecaptchaServiceError {
    /// The HTTP transport failed, or the answer was unreadable.
    Reqwest(Vec<u8>),
    /// The verifier answered a non-success status.
    HttpError(u16),
}

/// Plans a verification: with no secret key configured the verifier is not
/// asked and the token counts as unverified; otherwise the form carries the
/// key and the token, and no remote address.
pub fn recaptcha_plan(secret_key: Option<&Vec<u8>>, token: &[u8]) -> (r: Option<
    RecaptchaVerifyRequest,
>)
    ensures
        match (r, secret_key) {
            (Some(req), Some(k)) => req.secret@ == k@ && req.response@ == token@
                && req.remote_ip is None,
            (None, None) => true,
            _ => false,
        },
{
    match secret_key {
        None => None,
        Some(k) => Some(
            RecaptchaVerifyRequest {
                secret: vstd::slice::slice_to_vec(k.as_slice()),
                response: vstd::slice::slice_to_vec(token),
                remote_ip: None,
            },
        ),
    }
}

/// Reads the verifier's answer: a non-success status fails with it; an
/// unreadable body fails as a transport error; otherwise the verdict is the
/// answer's `success` flag.
pub fn interpret_recaptcha_response(status: u16, body_success: Result<bool, Vec<u8>>) -> (r: Result<
    bool,
    RecaptchaServiceError,
>)
    ensures
        r == if !(200 <= status < 300) {
            Err::<bool, RecaptchaServiceError>(RecaptchaServiceError::HttpError(status))
        } else {
            match body_success {
                Ok(b) => Ok::<bool, RecaptchaServiceError>(b),
                Err(m) => Err::<bool, RecaptchaServiceError>(RecaptchaServiceError::Reqwest(m)),
            }
        },
{
    if !(200 <= status && status < 300) {
        Err(RecaptchaServiceError::HttpError(status))
    } else {
        match body_success {
            Ok(b) => Ok(b),
            Err(m) => Err(RecaptchaServiceError::Reqwest(m)),
        }
    }
}

/// The first comma-separated entry of a forwarding header, trimmed: the
/// client the nearest proxy saw.
pub open spec fn spec_first_forwarded(s: Seq<u8>) -> Seq<u8> {
    match first_comma(s) {
        None => trim_spaces(s),
        Some(i) => if 0 <= i < s.len() {
            trim_spaces(s.take(i))
        } else {
            trim_spaces(s)
        },
    }
}

/// Picks the first entry of an `X-Forwarded-For` value, executable mirror
/// of [`spec_first_forwarded`].
pub fn first_forwarded_entry(s: &[u8]) -> (r: Vec<u8>)
    ensures
        r@ == spec_first_forwarded(s@),
{
    let mut j: usize = 0;
    while j < s.len() && s[j] != 44
        invariant
            j <= s@.len(),
            forall|k: int| 0 <= k < j ==> s@[k] != 44,
        decreases s@.len() - j,
    {
        j += 1;
    }
    proof {
        if j < s.len() {
            lemma_first_comma_at(s@, j as int);
        } else {
            lemma_first_comma_none(s@);
        }
    }
    let part: &[u8] = vstd::slice::slice_subrange(s, 0, j);
    proof {
        if j == s.len() {
            assert(part@ =~= s@);
        }
    }
    crate::tz::trim_ascii(part)
}

/// The client address of a request: the `CF-Connecting-IP` header, else the
/// first `X-Forwarded-For` entry, else the transport's peer address — the
/// first of them that parsed as an address.
pub fn pick_client_ip(
    cf_connecting: Option<Vec<u8>>,
    forwarded_first: Option<Vec<u8>>,
    peer: Option<Vec<u8>>,
) -> (r: Option<Vec<u8>>)
    ensures
        r == if cf_connecting is Some {
            cf_connecting
        } else if forwarded_first is Some {
            forwarded_first
        } else {
            peer
        },
{
    match cf_connecting {
        Some(v) => Some(v),
        None => match forwarded_first {
            Some(v) => Some(v),
            None => peer,
        },
    }
}

} // verus!
