//! The service's settings, read from the values of its environment.
use vstd::prelude::*;
use crate::access::opt_view;
use crate::crypto::{TokenKey, decrypt_token, key_decoded, opened_token, parse_key};
use crate::error::AppError;
use crate::text::str_eq;

verus! {

broadcast use vstd::string::group_string_axioms;

/// The service's settings.
#[derive(Debug)]
pub struct Config {
    /// The public origin of the site, without a trailing slash.
    pub base_url: String,
    pub github_client_id: Option<String>,
    pub github_client_secret: Option<String>,
    /// The key that seals stored GitHub tokens.
    pub token_key: Option<TokenKey>,
    /// Whether the development-only sign-in is on.
    pub dev_auth: bool,
}

/// Whether a configured token key text, if any, reads as a key.
pub open spec fn key_text_ok(token_key: Option<String>) -> bool {
    match token_key {
        None => true,
        Some(t) => key_decoded(t@) matches Some(d) && d.len() == 32,
    }
}

/// The settings from the values of `APP_BASE_URL`, `GITHUB_CLIENT_ID`,
/// `GITHUB_CLIENT_SECRET`, `KNOCK_KNOCK_TOKEN_KEY` and `KNOCK_KNOCK_DEV_AUTH`
/// (`None` for an unset variable). The token key must read as a key, and
/// GitHub sign-in needs both the secret and the token key. Development
/// sign-in is on only when its variable is exactly `1`.
pub fn build_config(
    base_url: Option<String>,
    github_client_id: Option<String>,
    github_client_secret: Option<String>,
    token_key: Option<String>,
    dev_auth: Option<String>,
) -> (r: Result<Config, String>)
    ensures
        !key_text_ok(token_key) ==> r is Err,
        (token_key matches Some(t) && key_decoded(t@) matches Some(d) && d.len() != 32) ==> (r matches Err(m)
            && m@ == "KNOCK_KNOCK_TOKEN_KEY must encode exactly 32 bytes"@),
        key_text_ok(token_key) && github_client_id is Some && (github_client_secret is None
            || token_key is None) ==> (r matches Err(m) && m@
            == "GITHUB_CLIENT_SECRET and KNOCK_KNOCK_TOKEN_KEY are required with GITHUB_CLIENT_ID"@),
        key_text_ok(token_key) && !(github_client_id is Some && (github_client_secret is None
            || token_key is None)) ==> (r matches Ok(c) && {
            &&& c.base_url@ == match base_url {
                Some(b) => b@,
                None => "http://127.0.0.1:3000"@,
            }
            &&& opt_view(c.github_client_id) == opt_view(github_client_id)
            &&& opt_view(c.github_client_secret) == opt_view(github_client_secret)
            &&& (c.token_key is Some <==> token_key is Some)
            &&& (c.token_key matches Some(k) ==> Some(k.bytes_of()) == key_decoded(
                token_key->Some_0@,
            ))
            &&& c.dev_auth == (dev_auth matches Some(v) && v@ == "1"@)
        }),
{
    let base_url = match base_url {
        Some(b) => b,
        None => "http://127.0.0.1:3000".to_string(),
    };
    let key = match token_key {
        Some(t) => match parse_key(t.as_str()) {
            Ok(k) => Some(k),
            Err(e) => return Err(e),
        },
        None => None,
    };
    if github_client_id.is_some() && (github_client_secret.is_none() || key.is_none()) {
        return Err(
            "GITHUB_CLIENT_SECRET and KNOCK_KNOCK_TOKEN_KEY are required with GITHUB_CLIENT_ID".to_string(),
        );
    }
    let dev_auth = match dev_auth {
        Some(v) => str_eq(v.as_str(), "1"),
        None => false,
    };
    Ok(Config { base_url, github_client_id, github_client_secret, token_key: key, dev_auth })
}

/// The GitHub token of a signed-in user: opened from its sealed form when
/// one is stored and the service has a token key; none otherwise.
pub fn stored_access_token(encrypted: Option<Vec<u8>>, key: Option<&TokenKey>) -> (r: Result<
    Option<String>,
    AppError,
>)
    ensures
        (encrypted is None || key is None) ==> r == Ok::<Option<String>, AppError>(None),
        (encrypted matches Some(v) && key matches Some(k)) ==> match opened_token(
            key->Some_0.bytes_of(),
            encrypted->Some_0@,
        ) {
            Some(t) => r matches Ok(Some(s)) && s@ == t,
            None => r matches Err(AppError::Internal(_)),
        },
{
    match (encrypted, key) {
        (Some(value), Some(k)) => match decrypt_token(k, value.as_slice()) {
            Ok(s) => Ok(Some(s)),
            Err(e) => Err(e),
        },
        _ => Ok(None),
    }
}

} // verus!
