use knock_knock::access::{
    AuthUser, GithubOwner, GithubPermissions, GithubRepository, Repository, relationship_for,
    repository_view,
};
use knock_knock::config::{build_config, stored_access_token};
use knock_knock::connection::{Connection, SocketAction, SocketInput};
use knock_knock::crypto::{
    decrypt_token, dev_github_id, dev_repository_id, encrypt_token, hash_token, id_from_digest,
    key_from_bytes, new_api_key, parse_key, pkce_challenge, random_token,
};
use knock_knock::error::{AppError, internal};
use knock_knock::headers::{
    bearer_token, cleared_session_cookie, cookie, oauth_state_expiry, require_mutation,
    require_origin, session_cookie, session_expiry,
};
use knock_knock::links::{
    authorize_url, callback_url, github_status_error, issue_url, room_url,
};
use knock_knock::markdown::{check_destinations, check_scheme, validate_message};
use knock_knock::messages::{
    MessageRow, MessageView, PublicUser, RoomState, ensure_author_visible, history_before,
    history_limit, history_page, message_from_row, visibility_cutoff, VISIBLE_SECONDS,
};
use knock_knock::polling::{ApiKeyRecord, claim_api_poll, owner_room_update, require_key_owner};
use knock_knock::presence::Presence;
use knock_knock::ratelimit::{RateLimiter, WINDOW_NANOS};
use knock_knock::resolve::{
    RepositorySource, check_mute_target, dev_identity, ensure_can_post, public_relationship,
    repository_source, require_manager,
};
use knock_knock::text::{decimal_string, signed_decimal_string, str_eq_ignore_ascii_case};
use knock_knock::time::{MAX_TIMESTAMP, MIN_TIMESTAMP, timestamp};
use knock_knock::validate::{
    clean_reason, safe_return_to, validate_client_message_id, validate_login, validate_slug,
};

fn user(id: i64, login: &str) -> AuthUser {
    AuthUser {
        id,
        github_id: id + 100,
        login: login.into(),
        avatar_url: format!("https://avatars.example/{login}"),
        token: None,
    }
}

fn repo(owner: &str, kind: &str, permissions: GithubPermissions) -> GithubRepository {
    GithubRepository {
        id: 7,
        name: "portal".into(),
        private: false,
        html_url: format!("https://github.com/{owner}/portal"),
        description: None,
        has_issues: true,
        owner: GithubOwner {
            login: owner.into(),
            kind: kind.into(),
        },
        permissions,
    }
}

fn bad_request_text(r: Result<(), AppError>) -> String {
    match r {
        Err(AppError::BadRequest(m)) => m,
        other => panic!("expected a bad request, got {other:?}"),
    }
}

// --- text -----------------------------------------------------------------

#[test]
fn decimal_numbers_match_to_string() {
    for n in [0u64, 7, 10, 8000, 2592000, u64::MAX] {
        assert_eq!(decimal_string(n), n.to_string());
    }
    for n in [0i64, -1, 42, -9001, i64::MIN, i64::MAX] {
        assert_eq!(signed_decimal_string(n), n.to_string());
    }
}

#[test]
fn ascii_case_is_ignored_only_for_ascii() {
    assert!(str_eq_ignore_ascii_case("MxCl", "mxcl"));
    assert!(!str_eq_ignore_ascii_case("mxcl", "mxcl2"));
    assert!(!str_eq_ignore_ascii_case("É", "é"));
}

// --- errors ---------------------------------------------------------------

#[test]
fn errors_map_to_statuses_and_messages() {
    assert_eq!(AppError::BadRequest("x".into()).status_code(), 400);
    assert_eq!(AppError::Unauthorized.status_code(), 401);
    assert_eq!(AppError::Forbidden.status_code(), 403);
    assert_eq!(AppError::NotFound("x".into()).status_code(), 404);
    assert_eq!(AppError::Conflict("x".into()).status_code(), 409);
    assert_eq!(AppError::RateLimited.status_code(), 429);
    assert_eq!(AppError::PollingTooQuickly(5).status_code(), 429);
    assert_eq!(internal("db down".into()).status_code(), 500);
    assert_eq!(internal("db down".into()).public_message(), "something went wrong");
    assert_eq!(internal("db down".into()).description(), "db down");
    assert_eq!(AppError::Unauthorized.public_message(), "authentication required");
    assert_eq!(
        AppError::PollingTooQuickly(5).public_message(),
        "polling is limited to once per minute"
    );
    assert_eq!(AppError::PollingTooQuickly(5).retry_after(), Some(5));
    assert_eq!(AppError::RateLimited.retry_after(), None);
    assert_eq!(
        AppError::RateLimited.public_message(),
        "posting too quickly; please wait a moment"
    );
}

// --- relationships --------------------------------------------------------

#[test]
fn pills_follow_github_permissions() {
    let visitor = user(1, "MXCL");
    let owner = relationship_for(&visitor, &repo("mxcl", "User", GithubPermissions::default()));
    assert_eq!(owner.pill.as_deref(), Some("owner"));
    assert!(owner.can_manage);

    let org = relationship_for(
        &visitor,
        &repo("mxcl", "Organization", GithubPermissions::default()),
    );
    assert_eq!(org.pill, None);
    assert!(!org.can_manage);

    let admin = GithubPermissions { admin: true, ..Default::default() };
    let r = relationship_for(&visitor, &repo("other", "User", admin));
    assert_eq!(r.pill.as_deref(), Some("maintainer"));
    assert!(r.can_manage);

    let maintain = GithubPermissions { maintain: true, ..Default::default() };
    assert!(relationship_for(&visitor, &repo("other", "User", maintain)).can_manage);

    let push = GithubPermissions { push: true, ..Default::default() };
    let r = relationship_for(&visitor, &repo("other", "User", push));
    assert_eq!(r.pill.as_deref(), Some("maintainer"));
    assert!(!r.can_manage);

    let triage = GithubPermissions { triage: true, ..Default::default() };
    let r = relationship_for(&visitor, &repo("other", "User", triage));
    assert_eq!(r.pill.as_deref(), Some("collaborator"));
    assert!(!r.can_manage);
}

#[test]
fn repository_view_copies_public_fields() {
    let stored = Repository {
        id: 3,
        owner: "mxcl".into(),
        name: "portal".into(),
        html_url: "https://github.com/mxcl/portal".into(),
        description: Some("Chat".into()),
        has_issues: false,
    };
    let v = repository_view(&stored);
    assert_eq!(v.owner, "mxcl");
    assert_eq!(v.name, "portal");
    assert_eq!(v.html_url, "https://github.com/mxcl/portal");
    assert_eq!(v.description.as_deref(), Some("Chat"));
}

// --- small checks ---------------------------------------------------------

#[test]
fn slugs_are_checked() {
    assert!(validate_slug("knock-knock_v2.0").is_ok());
    assert_eq!(bad_request_text(validate_slug("")), "invalid repository path");
    assert_eq!(bad_request_text(validate_slug("a/b")), "invalid repository path");
    assert_eq!(bad_request_text(validate_slug("naïve")), "invalid repository path");
    assert!(validate_slug(&"a".repeat(100)).is_ok());
    assert!(validate_slug(&"a".repeat(101)).is_err());
}

#[test]
fn return_paths_are_limited() {
    assert_eq!(safe_return_to(None), "/");
    assert_eq!(safe_return_to(Some(String::new())), "/");
    let long = format!("/{}", "a".repeat(299));
    assert_eq!(safe_return_to(Some(long.clone())), long);
    assert_eq!(safe_return_to(Some(format!("/{}", "a".repeat(300)))), "/");
    assert_eq!(safe_return_to(Some("/".into())), "/");
}

#[test]
fn reasons_are_trimmed_and_bounded() {
    assert_eq!(clean_reason("  spam \n".into()).unwrap(), "spam");
    let message = match clean_reason("   ".into()) {
        Err(AppError::BadRequest(m)) => m,
        _ => panic!("blank reason accepted"),
    };
    assert_eq!(message, "reason must be 1–500 characters");
    assert!(clean_reason("é".repeat(500)).is_ok());
    assert!(clean_reason("é".repeat(501)).is_err());
}

#[test]
fn client_message_ids_are_bounded() {
    assert!(validate_client_message_id("abc").is_ok());
    assert!(validate_client_message_id(&"x".repeat(64)).is_ok());
    assert_eq!(
        bad_request_text(validate_client_message_id(&"x".repeat(65))),
        "invalid client message ID"
    );
    assert!(validate_client_message_id("").is_err());
}

#[test]
fn development_logins_are_checked() {
    assert_eq!(validate_login(None).unwrap(), "octocat");
    assert_eq!(validate_login(Some("mxcl-2".into())).unwrap(), "mxcl-2");
    assert!(validate_login(Some("a_b".into())).is_err());
    assert!(validate_login(Some("a".repeat(40))).is_err());
    assert!(validate_login(Some(String::new())).is_err());
}

// --- headers --------------------------------------------------------------

#[test]
fn cookies_are_found_by_name() {
    let h = "theme=dark; kk_session=abc=def ;other=1";
    assert_eq!(cookie(Some(h), "kk_session").as_deref(), Some("abc=def"));
    assert_eq!(cookie(Some(h), "theme").as_deref(), Some("dark"));
    assert_eq!(cookie(Some(h), "other").as_deref(), Some("1"));
    assert_eq!(cookie(Some(h), "missing"), None);
    assert_eq!(cookie(Some("broken; kk_session=x;"), "kk_session").as_deref(), Some("x"));
    assert_eq!(cookie(Some("a=1;a=2"), "a").as_deref(), Some("1"));
    assert_eq!(cookie(None, "kk_session"), None);
    assert_eq!(cookie(Some(""), "kk_session"), None);
}

#[test]
fn bearer_scheme_is_case_insensitive_and_key_length_exact() {
    let key = format!("kk_{}", "b".repeat(43));
    assert_eq!(bearer_token(Some(&format!("bEaReR {key}"))).unwrap(), key);
    assert!(bearer_token(Some(&format!("Bearer kk_{}", "b".repeat(42)))).is_err());
    assert!(bearer_token(Some(&format!("Token {key}"))).is_err());
    assert!(bearer_token(Some(&format!("Bearer xx_{}", "b".repeat(43)))).is_err());
    assert!(matches!(bearer_token(None), Err(AppError::Unauthorized)));
    assert!(bearer_token(Some("Bearer")).is_err());
}

#[test]
fn origin_and_marker_guard_mutations() {
    let base = "https://knock-knock.mxcl.dev";
    assert!(require_origin(Some(base), base).is_ok());
    assert!(matches!(require_origin(Some("https://evil.test"), base), Err(AppError::Forbidden)));
    assert!(matches!(require_origin(None, base), Err(AppError::Forbidden)));
    assert!(require_mutation(Some(base), Some("1"), base).is_ok());
    assert!(matches!(require_mutation(Some(base), Some("0"), base), Err(AppError::Forbidden)));
    assert!(matches!(require_mutation(Some(base), None, base), Err(AppError::Forbidden)));
    assert!(matches!(require_mutation(None, Some("1"), base), Err(AppError::Forbidden)));
}

#[test]
fn session_cookies() {
    assert_eq!(
        session_cookie("tok", "https://knock-knock.mxcl.dev"),
        "kk_session=tok; Path=/; HttpOnly; SameSite=Lax; Max-Age=2592000; Secure"
    );
    assert_eq!(
        session_cookie("tok", "http://127.0.0.1:3000"),
        "kk_session=tok; Path=/; HttpOnly; SameSite=Lax; Max-Age=2592000"
    );
    assert_eq!(
        cleared_session_cookie(),
        "kk_session=; Path=/; HttpOnly; SameSite=Lax; Max-Age=0"
    );
}

// --- rate limits ----------------------------------------------------------

#[test]
fn twenty_posts_per_account_per_minute() {
    let mut limits = RateLimiter::new();
    let start = 5_000_000_000u64;
    for i in 0..20u64 {
        assert!(limits.enforce_post_limit(1, "10.0.0.1", start + i).is_ok());
    }
    assert!(matches!(
        limits.enforce_post_limit(1, "10.0.0.1", start + 20),
        Err(AppError::RateLimited)
    ));
    // another account from the same address is still let through
    assert!(limits.enforce_post_limit(2, "10.0.0.1", start + 21).is_ok());
    // a minute after the first post, one slot frees up
    assert!(limits.enforce_post_limit(1, "10.0.0.1", start + WINDOW_NANOS).is_ok());
    assert!(limits.enforce_post_limit(1, "10.0.0.1", start + WINDOW_NANOS).is_err());
}

#[test]
fn sixty_posts_per_address_per_minute() {
    let mut limits = RateLimiter::new();
    for i in 0..60i64 {
        assert!(limits.enforce_post_limit(i, "192.0.2.9", 1_000 + i as u64).is_ok());
    }
    assert!(matches!(
        limits.enforce_post_limit(99, "192.0.2.9", 2_000),
        Err(AppError::RateLimited)
    ));
    assert!(limits.enforce_post_limit(99, "192.0.2.10", 2_001).is_ok());
}

#[test]
fn refused_attempts_are_not_recorded() {
    let mut limits = RateLimiter::new();
    for i in 0..20u64 {
        assert!(limits.attempt("user:7".into(), i, 20));
    }
    assert!(!limits.attempt("user:7".into(), 30, 20));
    // the refused attempt was not recorded
    assert!(!limits.attempt("user:7".into(), 31, 20));
    assert!(limits.attempt("user:7".into(), WINDOW_NANOS + 1, 20));
}

#[test]
fn no_minute_lets_more_than_the_allowance_through() {
    // Posts every 100 ms for five minutes, from two accounts sharing one
    // address and a third account elsewhere.
    let mut limits = RateLimiter::new();
    let mut accepted: Vec<(i64, &str, u64)> = Vec::new();
    for i in 0..3_000u64 {
        let now = i * 100_000_000;
        let (user, ip) = match i % 3 {
            0 => (1, "10.0.0.1"),
            1 => (2, "10.0.0.1"),
            _ => (3, "10.0.0.2"),
        };
        if limits.enforce_post_limit(user, ip, now).is_ok() {
            accepted.push((user, ip, now));
        }
    }
    for start in (0..300_000_000_000u64).step_by(50_000_000) {
        let in_window = |p: &&(i64, &str, u64)| start <= p.2 && p.2 < start + WINDOW_NANOS;
        for user in 1..=3 {
            assert!(accepted.iter().filter(in_window).filter(|p| p.0 == user).count() <= 20);
        }
        for ip in ["10.0.0.1", "10.0.0.2"] {
            assert!(accepted.iter().filter(in_window).filter(|p| p.1 == ip).count() <= 60);
        }
    }
    // each account gets its full allowance in the first minute
    assert_eq!(accepted.iter().filter(|p| p.0 == 1 && p.2 < WINDOW_NANOS).count(), 20);
}

// --- presence -------------------------------------------------------------

#[test]
fn presence_counts_people_not_tabs() {
    let mut presence = Presence::new();
    let alice = user(1, "alice");
    let bob = user(2, "bob");
    assert!(presence.change_presence(9, &alice, Some("maintainer".into()), 1));
    assert!(!presence.change_presence(9, &alice, Some("maintainer".into()), 1));
    assert!(presence.change_presence(9, &bob, None, 1));
    let (count, affiliated) = presence.summary(9);
    assert_eq!(count, 2);
    assert_eq!(affiliated, vec![(101, "alice".to_string(), "maintainer".to_string())]);
    assert!(!presence.change_presence(9, &alice, None, -1));
    assert_eq!(presence.summary(9).0, 2);
    assert!(presence.change_presence(9, &alice, None, -1));
    assert_eq!(presence.summary(9).0, 1);
    assert!(presence.summary(9).1.is_empty());
    assert!(!presence.change_presence(9, &alice, None, -1));
    assert_eq!(presence.summary(10).0, 0);
}

// --- polling --------------------------------------------------------------

#[test]
fn owner_reports_name_the_room_and_its_times() {
    let u = owner_room_update(
        "https://knock-knock.mxcl.dev",
        "mxcl".into(),
        "portal".into(),
        3,
        1_786_217_400,
        1_786_212_000,
    );
    assert_eq!(u.url, "https://knock-knock.mxcl.dev/mxcl/portal");
    assert_eq!(u.owner, "mxcl");
    assert_eq!(u.repository, "portal");
    assert_eq!(u.new_message_count, 3);
    assert_eq!(u.latest_message_at, "2026-08-08T19:30:00Z");
    assert_eq!(u.last_opened_at, "2026-08-08T18:00:00Z");
}

#[test]
fn sessions_and_sign_ins_expire() {
    assert_eq!(session_expiry(1_000), 1_000 + 30 * 24 * 60 * 60);
    assert_eq!(oauth_state_expiry(1_000), 1_600);
}

#[test]
fn a_run_of_polls_accepts_one_per_minute() {
    let mut record = ApiKeyRecord { user_id: 4, last_polled_at: None };
    let mut accepted = Vec::new();
    for now in [1_000, 1_000, 1_030, 1_059, 1_060, 1_100, 1_119, 1_120, 1_500] {
        match claim_api_poll(Some(record), now) {
            Ok(next) => {
                record = next;
                accepted.push(now);
            }
            Err(AppError::PollingTooQuickly(wait)) => {
                assert!(wait >= 1);
                assert_eq!(now + wait, record.last_polled_at.unwrap() + 60);
            }
            Err(other) => panic!("unexpected {other:?}"),
        }
    }
    assert_eq!(accepted, vec![1_000, 1_060, 1_120, 1_500]);
}

#[test]
fn only_managers_create_api_keys() {
    assert!(require_key_owner(true).is_ok());
    assert!(matches!(require_key_owner(false), Err(AppError::Forbidden)));
}

#[test]
fn unknown_keys_cannot_poll() {
    assert!(matches!(claim_api_poll(None, 1_000), Err(AppError::Unauthorized)));
    let record = ApiKeyRecord { user_id: 4, last_polled_at: Some(100) };
    let claimed = claim_api_poll(Some(record), 1_000).unwrap();
    assert_eq!(claimed.user_id, 4);
    assert_eq!(claimed.last_polled_at, Some(1_000));
}

// --- messages and rooms ---------------------------------------------------

fn row(state: &str, edited_at: Option<i64>) -> MessageRow {
    MessageRow {
        id: 11,
        markdown: "hello".into(),
        affiliation: Some("owner".into()),
        state: state.into(),
        created_at: 0,
        edited_at,
        github_id: 5,
        login: "mxcl".into(),
        avatar_url: "a".into(),
    }
}

#[test]
fn removed_messages_are_tombstones() {
    let visible = message_from_row(row("visible", Some(60)));
    assert_eq!(visible.markdown.as_deref(), Some("hello"));
    assert_eq!(visible.created_at, "1970-01-01T00:00:00Z");
    assert_eq!(visible.edited_at.as_deref(), Some("1970-01-01T00:01:00Z"));
    assert_eq!(visible.author.id, 5);
    let removed = message_from_row(row("removed", None));
    assert_eq!(removed.markdown, None);
    assert_eq!(removed.state, "removed");
    assert_eq!(removed.id, 11);
    assert_eq!(removed.affiliation.as_deref(), Some("owner"));
    assert!(message_from_row(row("hidden", None)).markdown.is_none());
}

#[test]
fn timestamps_cover_chrono_range() {
    assert_eq!(timestamp(1431648000), "2015-05-15T00:00:00Z");
    assert_eq!(timestamp(MIN_TIMESTAMP), "-262143-01-01T00:00:00Z");

    assert!(timestamp(MAX_TIMESTAMP).starts_with("+262142-12-31T23:59:59"));
}

#[test]
fn history_paging() {
    assert_eq!(history_limit(None), 100);
    assert_eq!(history_limit(Some(0)), 1);
    assert_eq!(history_limit(Some(-5)), 1);
    assert_eq!(history_limit(Some(30)), 30);
    assert_eq!(history_limit(Some(1000)), 100);
    assert_eq!(history_before(None), i64::MAX);
    assert_eq!(history_before(Some(9)), 9);
    let view = |id: i64| MessageView {
        id,
        author: PublicUser { id: 1, login: "a".into(), avatar_url: String::new() },
        markdown: None,
        affiliation: None,
        state: "visible".into(),
        created_at: String::new(),
        edited_at: None,
    };
    let (items, next) = history_page(vec![view(9), view(8), view(7)], 2);
    assert_eq!(items.iter().map(|m| m.id).collect::<Vec<_>>(), vec![9, 8]);
    assert_eq!(next, Some(8));
    let (items, next) = history_page(vec![view(9), view(8)], 2);
    assert_eq!(items.len(), 2);
    assert_eq!(next, None);
}

#[test]
fn authors_edit_only_visible_messages() {
    let author = user(3, "mxcl");
    let now = 2_000_000_000;
    assert!(ensure_author_visible(&author, 3, true, Some(0), now - 10, now).is_ok());
    assert!(matches!(
        ensure_author_visible(&author, 4, true, Some(0), now - 10, now),
        Err(AppError::Forbidden)
    ));
    let outside = ensure_author_visible(&author, 3, true, Some(0), now - VISIBLE_SECONDS, now);
    match outside {
        Err(AppError::Conflict(m)) => assert_eq!(m, "message is outside the public viewing window"),
        _ => panic!("expired message editable"),
    }
    assert!(ensure_author_visible(&author, 3, true, Some(0), now - VISIBLE_SECONDS + 1, now).is_ok());
    assert!(ensure_author_visible(&author, 3, false, Some(0), now - 10, now).is_err());
    assert!(ensure_author_visible(&author, 3, true, None, now - 10, now).is_err());
    assert!(ensure_author_visible(&author, 3, true, Some(now - 5), now - 10, now).is_err());
    assert_eq!(visibility_cutoff(now), now - 1_209_600);
}

#[test]
fn reactivation_starts_an_empty_timeline() {
    let room = RoomState { active: false, visible_since: None };
    assert!(room.require_active().is_err());
    let room = room.activate(1_000);
    assert!(room.active);
    assert_eq!(room.visible_since, Some(1_000));
    assert!(room.require_active().is_ok());
    assert_eq!(room.activate(5_000).visible_since, Some(1_000));
    let (closed, was_open) = room.deactivate();
    assert!(was_open);
    assert!(!closed.active);
    let (_, was_open_again) = closed.deactivate();
    assert!(!was_open_again);
    let reopened = closed.activate(9_000);
    assert_eq!(reopened.listing_bounds(10_000), (10_000 - VISIBLE_SECONDS, 9_000));
    assert_eq!(
        RoomState { active: false, visible_since: None }.listing_bounds(10_000).1,
        i64::MAX
    );
}

// --- message contents -----------------------------------------------------

#[test]
fn message_problems_are_reported_in_order() {
    assert_eq!(bad_request_text(validate_message(" \n\t")), "message cannot be empty");
    assert!(validate_message(&"x".repeat(8_000)).is_ok());
    assert_eq!(
        bad_request_text(validate_message(&"é".repeat(8_001))),
        "message is longer than 8000 characters"
    );
    assert_eq!(
        bad_request_text(validate_message("see [docs](/docs)")),
        "links must be absolute HTTP(S) URLs"
    );
    assert_eq!(
        bad_request_text(validate_message("see [ftp](ftp://example.com/file)")),
        "links must use HTTP or HTTPS"
    );
    assert_eq!(
        bad_request_text(validate_message("![img](data:image/png;base64,AAAA)")),
        "links must use HTTP or HTTPS"
    );
    let long_link = format!("[x](https://example.com/{})", "a".repeat(2_048));
    assert_eq!(
        bad_request_text(validate_message(&long_link)),
        "URL is longer than 2,048 characters"
    );
    let bare = format!("look https://example.com/{} now", "a".repeat(2_030));
    assert_eq!(
        bad_request_text(validate_message(&bare)),
        "URL is longer than 2,048 characters"
    );
    let fits = format!("look https://example.com/{} now", "a".repeat(2_000));
    assert!(validate_message(&fits).is_ok());
    let not_an_address = format!("word{}", "a".repeat(3_000));
    assert!(validate_message(&not_an_address).is_ok());
    assert!(validate_message("`code` and ```\nblock\n```").is_ok());
}

#[test]
fn link_schemes_and_destinations_are_checked() {
    assert!(check_scheme(Some("https".into())).is_ok());
    assert!(check_scheme(Some("http".into())).is_ok());
    assert_eq!(
        bad_request_text(check_scheme(Some("javascript".into()))),
        "links must use HTTP or HTTPS"
    );
    assert_eq!(bad_request_text(check_scheme(None)), "links must be absolute HTTP(S) URLs");
    assert!(check_destinations(&vec![None, Some("https://example.com".into()), None]).is_ok());
    assert_eq!(
        bad_request_text(check_destinations(&vec![
            Some("https://example.com".into()),
            Some("mailto:a@b.c".into()),
            Some("relative".into()),
        ])),
        "links must use HTTP or HTTPS"
    );
    assert!(check_destinations(&vec![]).is_ok());
}

// --- secrets --------------------------------------------------------------

#[test]
fn token_hashes_are_sha256() {
    let digest = hash_token("abc");
    let hex: String = digest.iter().map(|b| format!("{b:02x}")).collect();
    assert_eq!(hex, "ba7816bf8f01cfea414140de5dae2223b00361a396177a9cb410ff61f20015ad");
}

#[test]
fn api_keys_are_accepted_by_the_owner_api() {
    let key = new_api_key();
    assert_eq!(key.len(), 46);
    assert!(key.starts_with("kk_"));
    assert_eq!(bearer_token(Some(&format!("Bearer {key}"))).unwrap(), key);
    assert_ne!(new_api_key(), key);
    let token = random_token(32);
    assert_eq!(token.len(), 43);
    assert!(token.chars().all(|c| c.is_ascii_alphanumeric() || c == '-' || c == '_'));
}

#[test]
fn pkce_challenge_matches_rfc_7636() {
    assert_eq!(
        pkce_challenge("dBjftJeZ4CVP-mB92K27uhbUJU1p1r_wW1gFWFOEjXk"),
        "E9Melhoa2OwvFrEMTJguCHaoeK1t8URWbuGJSstw-cM"
    );
}

#[test]
fn token_keys_are_parsed_from_base64() {
    assert!(parse_key(" AAECAwQFBgcICQoLDA0ODxAREhMUFRYXGBkaGxwdHh8= \n").is_ok());
    assert!(parse_key("yMnKy8zNzs_Q0dLT1NXW19jZ2tvc3d7f4OHi4-Tl5uc").is_ok());
    assert_eq!(
        parse_key("AAECAw==").unwrap_err(),
        "KNOCK_KNOCK_TOKEN_KEY must encode exactly 32 bytes"
    );
    assert!(parse_key("not base64 at all!").is_err());
}

#[test]
fn stored_tokens_read_back() {
    let key = parse_key("AAECAwQFBgcICQoLDA0ODxAREhMUFRYXGBkaGxwdHh8=").unwrap();
    let sealed = encrypt_token(&key, "gho_secret").unwrap();
    assert_eq!(sealed.len(), 12 + 10 + 16);
    assert_ne!(&sealed[12..22], b"gho_secret");
    assert_eq!(decrypt_token(&key, &sealed).unwrap(), "gho_secret");
    let mut tampered = sealed.clone();
    tampered[20] ^= 1;
    assert!(matches!(decrypt_token(&key, &tampered), Err(AppError::Internal(_))));
    match decrypt_token(&key, &sealed[..12]) {
        Err(AppError::Internal(m)) => assert_eq!(m, "invalid encrypted token"),
        _ => panic!("short value accepted"),
    }
    assert_eq!(stored_access_token(Some(sealed.clone()), Some(&key)).unwrap().as_deref(), Some("gho_secret"));
    assert_eq!(stored_access_token(None, Some(&key)).unwrap(), None);
    assert_eq!(stored_access_token(Some(sealed), None).unwrap(), None);
}

#[test]
fn token_keys_need_exactly_32_bytes() {
    assert!(key_from_bytes(vec![7u8; 32]).is_ok());
    assert_eq!(
        key_from_bytes(vec![7u8; 31]).unwrap_err(),
        "KNOCK_KNOCK_TOKEN_KEY must encode exactly 32 bytes"
    );
    assert!(key_from_bytes(vec![7u8; 33]).is_err());
}

#[test]
fn digest_ids_clear_the_sign_bit() {
    let digest = vec![0xff, 0, 0, 0, 0, 0, 0, 1, 9, 9];
    assert_eq!(id_from_digest(&digest), 0x7f00_0000_0000_0001);
    assert_eq!(id_from_digest(&vec![0, 0, 0, 0, 0, 0, 1, 0]), 256);
}

#[test]
fn development_ids_come_from_sha256() {
    assert_eq!(dev_github_id("octocat"), 2766759760792355728);
    assert_eq!(dev_repository_id("mxcl", "portal"), 7802681774771488468);
    let who = dev_identity(None).unwrap();
    assert_eq!(who.login, "octocat");
    assert_eq!(who.id, 2766759760792355728);
    assert_eq!(who.avatar_url, "https://github.com/octocat.png?size=96");
    assert!(dev_identity(Some("bad login".into())).is_err());
}

// --- links ----------------------------------------------------------------

#[test]
fn links_are_built() {
    assert_eq!(
        room_url("https://knock-knock.mxcl.dev", "mxcl", "portal"),
        "https://knock-knock.mxcl.dev/mxcl/portal"
    );
    assert_eq!(callback_url("http://x"), "http://x/auth/github/callback");
    let mut stored = Repository {
        id: 1,
        owner: "mxcl".into(),
        name: "portal".into(),
        html_url: "https://github.com/mxcl/portal".into(),
        description: None,
        has_issues: true,
    };
    let url = issue_url(&stored).unwrap();
    assert!(url.starts_with("https://github.com/mxcl/portal/issues/new?title=Activate+this+repository+on+Knock+Knock&body="));
    stored.has_issues = false;
    assert_eq!(issue_url(&stored), None);
    let login = authorize_url("cid", "https://k.dev", "st", "ch").unwrap();
    assert_eq!(
        login,
        "https://github.com/login/oauth/authorize?client_id=cid&redirect_uri=https%3A%2F%2Fk.dev%2Fauth%2Fgithub%2Fcallback&state=st&code_challenge=ch&code_challenge_method=S256"
    );
    // a fragment in the repository address stays after the query
    stored.has_issues = true;
    stored.html_url = "https://github.com/mxcl/portal#readme".into();
    assert!(issue_url(&stored).unwrap().ends_with("#readme/issues/new"));
}

#[test]
fn oversized_addresses_are_not_built() {
    let stored = Repository {
        id: 1,
        owner: "mxcl".into(),
        name: "portal".into(),
        html_url: format!("https://github.com/{}", "a".repeat(16_777_216)),
        description: None,
        has_issues: true,
    };
    assert_eq!(issue_url(&stored), None);
    assert_eq!(authorize_url(&"c".repeat(16_777_216), "https://k.dev", "st", "ch"), None);
}

#[test]
fn github_statuses_become_errors() {
    assert!(matches!(github_status_error(404, "404 Not Found"), Some(AppError::NotFound(_))));
    assert!(matches!(github_status_error(401, "401 Unauthorized"), Some(AppError::Unauthorized)));
    match github_status_error(403, "403 Forbidden") {
        Some(AppError::Conflict(m)) => assert_eq!(m, "GitHub returned 403 Forbidden"),
        _ => panic!("403 not a conflict"),
    }
    assert!(github_status_error(200, "200 OK").is_none());
}

// --- repository resolution --------------------------------------------------

#[test]
fn repositories_come_from_github_or_development_mode() {
    let mut visitor = user(1, "MXCL");
    match repository_source(&visitor, "mxcl", "portal", true).unwrap() {
        RepositorySource::Local(r) => {
            assert!(r.permissions.admin);
            assert_eq!(r.html_url, "https://github.com/mxcl/portal");
            assert_eq!(r.id, 7802681774771488468);
            let rel = public_relationship(&visitor, &r).unwrap();
            assert_eq!(rel.pill.as_deref(), Some("owner"));
        }
        _ => panic!("expected a local repository"),
    }
    assert!(matches!(
        repository_source(&visitor, "mxcl", "portal", false),
        Err(AppError::Unauthorized)
    ));
    assert!(matches!(
        repository_source(&visitor, "mx cl", "portal", true),
        Err(AppError::BadRequest(_))
    ));
    visitor.token = Some("gho_x".into());
    match repository_source(&visitor, "mxcl", "portal", true).unwrap() {
        RepositorySource::Fetch { endpoint, token } => {
            assert_eq!(endpoint, "https://api.github.com/repos/mxcl/portal");
            assert_eq!(token, "gho_x");
        }
        _ => panic!("expected a fetch"),
    }
    let mut private = repo("mxcl", "User", GithubPermissions::default());
    private.private = true;
    assert!(matches!(public_relationship(&visitor, &private), Err(AppError::NotFound(_))));
}

#[test]
fn moderation_guards() {
    let rel = relationship_for(&user(1, "x"), &repo("y", "User", GithubPermissions::default()));
    assert!(matches!(require_manager(&rel), Err(AppError::Forbidden)));
    assert!(check_mute_target(1, 1).is_err());
    assert!(check_mute_target(1, 2).is_ok());
    assert!(ensure_can_post(false, false).is_ok());
    assert!(matches!(ensure_can_post(true, false), Err(AppError::Forbidden)));
    assert!(matches!(ensure_can_post(false, true), Err(AppError::Forbidden)));
}

// --- configuration and connections -----------------------------------------

#[test]
fn configuration_rules() {
    let c = build_config(None, None, None, None, None).unwrap();
    assert_eq!(c.base_url, "http://127.0.0.1:3000");
    assert!(!c.dev_auth);
    assert!(build_config(None, None, None, None, Some("1".into())).unwrap().dev_auth);
    assert!(!build_config(None, None, None, None, Some("true".into())).unwrap().dev_auth);
    assert_eq!(
        build_config(None, Some("id".into()), None, None, None).unwrap_err(),
        "GITHUB_CLIENT_SECRET and KNOCK_KNOCK_TOKEN_KEY are required with GITHUB_CLIENT_ID"
    );
    let key = "AAECAwQFBgcICQoLDA0ODxAREhMUFRYXGBkaGxwdHh8=".to_string();
    let c = build_config(
        Some("https://k.dev".into()),
        Some("id".into()),
        Some("secret".into()),
        Some(key),
        None,
    )
    .unwrap();
    assert_eq!(c.base_url, "https://k.dev");
    assert!(c.token_key.is_some());
    assert!(build_config(None, None, None, Some("AAAA".into()), None).is_err());
}

#[test]
fn connections_ping_and_drop_silent_clients() {
    let mut c = Connection::open(0);
    assert_eq!(c.step(SocketInput::Tick, 20_000_000_000), SocketAction::Ping);
    assert_eq!(c.step(SocketInput::Pong, 30_000_000_000), SocketAction::Wait);
    assert_eq!(c.last_seen, 30_000_000_000);
    assert_eq!(c.step(SocketInput::Tick, 75_000_000_000), SocketAction::Ping);
    assert_eq!(c.step(SocketInput::Tick, 75_000_000_001), SocketAction::Stop);
    assert_eq!(c.step(SocketInput::RoomEvent, 1), SocketAction::Forward);
    assert_eq!(c.step(SocketInput::Closed, 1), SocketAction::Stop);
    assert_eq!(c.step(SocketInput::OtherFrame, 99_000_000_000), SocketAction::Wait);
    assert_eq!(c.last_seen, 30_000_000_000);
}
