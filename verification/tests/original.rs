use std::collections::HashMap;

use axum::http::{HeaderMap, HeaderValue, header};
use knock_knock::access::{AuthUser, GithubOwner, GithubPermissions, GithubRepository, relationship_for};
use knock_knock::crypto::hash_token;
use knock_knock::error::AppError;
use knock_knock::headers::bearer_token;
use knock_knock::markdown::validate_message;
use knock_knock::polling::{ApiKeyRecord, claim_api_poll};
use knock_knock::validate::safe_return_to;

#[test]
fn validates_message_links_and_limits() {
    assert!(validate_message("hello [site](https://example.com)").is_ok());
    assert!(validate_message("[bad](javascript:alert(1))").is_err());
    assert!(validate_message(&"x".repeat(8_001)).is_err());
}

#[test]
fn protects_oauth_return_path() {
    assert_eq!(
        safe_return_to(Some("/rust-lang/rust".into())),
        "/rust-lang/rust"
    );
    assert_eq!(safe_return_to(Some("//evil.test".into())), "/");
    assert_eq!(safe_return_to(Some("https://evil.test".into())), "/");
}

#[test]
fn public_read_access_is_not_an_affiliation() {
    let user = AuthUser {
        id: 1,
        github_id: 1,
        login: "visitor".into(),
        avatar_url: String::new(),
        token: None,
    };
    let repo = GithubRepository {
        id: 1,
        name: "project".into(),
        private: false,
        html_url: String::new(),
        description: None,
        has_issues: true,
        owner: GithubOwner {
            login: "somebody-else".into(),
            kind: "User".into(),
        },
        permissions: GithubPermissions {
            _pull: true,
            ..Default::default()
        },
    };
    assert!(relationship_for(&user, &repo).pill.is_none());
}

fn authorization(headers: &HeaderMap) -> Option<&str> {
    headers
        .get(header::AUTHORIZATION)
        .and_then(|value| value.to_str().ok())
}

#[test]
fn accepts_only_knock_knock_bearer_tokens() {
    let token = format!("kk_{}", "a".repeat(43));
    let mut headers = HeaderMap::new();
    headers.insert(
        header::AUTHORIZATION,
        HeaderValue::from_str(&format!("Bearer {token}")).unwrap(),
    );
    assert_eq!(bearer_token(authorization(&headers)).unwrap(), token);

    headers.insert(
        header::AUTHORIZATION,
        HeaderValue::from_static("Bearer not-a-knock-knock-key"),
    );
    assert!(matches!(
        bearer_token(authorization(&headers)),
        Err(AppError::Unauthorized)
    ));
}

/// The stored API keys, by the hash of the key.
struct Keys(HashMap<Vec<u8>, ApiKeyRecord>);

impl Keys {
    fn poll(&mut self, token_hash: &[u8], now: i64) -> Result<i64, AppError> {
        let record = self.0.get(token_hash).copied();
        let claimed = claim_api_poll(record, now)?;
        self.0.insert(token_hash.to_vec(), claimed);
        Ok(claimed.user_id)
    }
}

#[test]
fn owner_api_enforces_one_poll_per_minute() {
    let mut keys = Keys(HashMap::new());
    let token_hash = hash_token("kk_test");
    keys.0.insert(
        token_hash.clone(),
        ApiKeyRecord {
            user_id: 1,
            last_polled_at: None,
        },
    );

    assert_eq!(keys.poll(&token_hash, 1_000).unwrap(), 1);
    assert!(matches!(
        keys.poll(&token_hash, 1_000),
        Err(AppError::PollingTooQuickly(60))
    ));
    assert!(matches!(
        keys.poll(&token_hash, 1_059),
        Err(AppError::PollingTooQuickly(1))
    ));
    assert_eq!(keys.poll(&token_hash, 1_060).unwrap(), 1);
}
