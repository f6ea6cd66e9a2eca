use authz_flow::csrf::CsrfConfig;
use authz_flow::iden::{OAuth2Sessions, UpstreamOAuthProviders, UserSessions, Users};
use authz_flow::ledger::TimeOrderedId;
use authz_flow::provider::{
    parse_auth_method, provider_from_row, OAuthClientAuthenticationMethod, ProviderLookupError,
    ProviderRow,
};
use authz_flow::requester::{BrowserSession, OAuth2Session, Requester, SessionUser};
use authz_flow::engine::join_scope;
use authz_flow::scope::parse_scope;
use authz_flow::user::{
    check_password, end_session_check, login_auth_error, login_lookup_error, start_session,
    AuthenticationError, EndSessionError, LoginError, User,
};

use argon2::Argon2;
use password_hash::{PasswordHasher, SaltString};

fn uid(n: u128) -> TimeOrderedId {
    TimeOrderedId::new(1_000, n)
}

fn user(n: u128) -> SessionUser {
    SessionUser { id: uid(n), username: format!("user{}", n) }
}

fn browser(n: u128) -> BrowserSession {
    BrowserSession { id: uid(100 + n), user: user(n), created_at_ms: 0, finished_at_ms: None }
}

#[test]
fn requester_accessors_follow_the_variant() {
    let anon = Requester::Anonymous;
    assert!(anon.browser_session().is_none());
    assert!(anon.user().is_none());
    assert!(!anon.is_admin());

    let r = Requester::from(browser(1));
    assert!(r.browser_session().is_some());
    assert_eq!(r.user().unwrap().id, uid(1));
    assert!(!r.is_admin());

    let r = Requester::from(None::<BrowserSession>);
    assert!(matches!(r, Requester::Anonymous));
    let r = Requester::default();
    assert!(matches!(r, Requester::Anonymous));
}

#[test]
fn admin_grant_comes_from_the_scope() {
    let session = OAuth2Session {
        id: uid(9),
        scope: vec!["openid".to_string(), "urn:mas:admin".to_string()],
    };
    let admin = Requester::OAuth2Session(session, user(2));
    assert!(admin.is_admin());
    // An administrator may act on any user.
    assert!(admin.ensure_owner_or_admin(uid(77)).is_ok());

    let session = OAuth2Session { id: uid(9), scope: vec!["openid".to_string()] };
    let plain = Requester::OAuth2Session(session, user(2));
    assert!(!plain.is_admin());
    assert!(plain.ensure_owner_or_admin(uid(2)).is_ok());
    assert!(plain.ensure_owner_or_admin(uid(77)).is_err());

    assert!(Requester::Anonymous.ensure_owner_or_admin(uid(1)).is_err());
}

#[test]
fn session_info_lifecycle() {
    let u = User::new(7, "alice".to_string());
    let s = start_session(u, 42, 1_000);
    assert_eq!(s.key(), 42);
    assert!(s.active);
    assert!(s.last_authd_at_ms.is_none());

    let s = s.reauth(2_000);
    assert_eq!(s.last_authd_at_ms, Some(2_000));
    assert!(s.active);

    let s = s.end();
    assert!(!s.active);
    assert_eq!(s.last_authd_at_ms, Some(2_000));
}

#[test]
fn password_check_against_a_real_hash() {
    let salt = SaltString::from_b64("YXV0aHpmbG93c2FsdA").unwrap();
    let hash = Argon2::default()
        .hash_password(b"hunter2", &salt)
        .unwrap()
        .to_string();
    assert!(check_password(&hash, &"hunter2".to_string()).is_ok());
    assert_eq!(
        check_password(&hash, &"wrong".to_string()),
        Err(AuthenticationError::Password)
    );
    assert_eq!(
        check_password(&"not-a-hash".to_string(), &"hunter2".to_string()),
        Err(AuthenticationError::Password)
    );
}

#[test]
fn login_failures_classify_by_cause() {
    let e = login_lookup_error(&"bob".to_string(), true, "boom".to_string());
    assert!(matches!(e, LoginError::NotFound { username } if username == "bob"));
    let e = login_lookup_error(&"bob".to_string(), false, "boom".to_string());
    assert!(matches!(e, LoginError::Other { message } if message == "boom"));

    let e = login_auth_error(&"bob".to_string(), AuthenticationError::Password, "x".to_string());
    assert!(matches!(e, LoginError::Authentication { username } if username == "bob"));
    let e = login_auth_error(&"bob".to_string(), AuthenticationError::Fetch, "x".to_string());
    assert!(matches!(e, LoginError::Other { message } if message == "x"));
}

#[test]
fn login_errors_render_for_the_page() {
    let e = LoginError::NotFound { username: "bob".to_string() };
    assert_eq!(e.html_display(), "Could not find user");
    let e = LoginError::Authentication { username: "bob".to_string() };
    assert_eq!(e.html_display(), "Failed to authenticate user");
    let e = LoginError::Other { message: "boom".to_string() };
    assert_eq!(e.html_display(), "Internal error: <pre>boom</pre>");
}

#[test]
fn ending_a_session_needs_exactly_one_row() {
    assert!(end_session_check(1).is_ok());
    assert_eq!(end_session_check(0), Err(EndSessionError::NoRowAffected));
    assert_eq!(end_session_check(2), Err(EndSessionError::TooManyRowsAffected));
}

#[test]
fn scope_parsing_follows_the_grammar() {
    assert_eq!(
        parse_scope("openid profile"),
        Some(vec!["openid".to_string(), "profile".to_string()])
    );
    assert_eq!(parse_scope("openid"), Some(vec!["openid".to_string()]));
    assert!(parse_scope("").is_none());
    assert!(parse_scope("a  b").is_none());
    assert!(parse_scope("a \"b\"").is_none());
    assert!(parse_scope("trailing ").is_none());
}

#[test]
fn joined_scope_parses_back() {
    let tokens = vec!["openid".to_string(), "profile".to_string(), "email".to_string()];
    let joined = join_scope(&tokens);
    assert_eq!(joined, "openid profile email");
    assert_eq!(parse_scope(joined.as_str()), Some(tokens));
}

#[test]
fn provider_rows_parse_back_or_report_inconsistency() {
    let row = ProviderRow {
        id: uid(3),
        issuer: "https://idp.example".to_string(),
        scope: "openid email".to_string(),
        client_id: "rp".to_string(),
        encrypted_client_secret: None,
        token_endpoint_signing_alg: Some("RS256".to_string()),
        token_endpoint_auth_method: "client_secret_basic".to_string(),
        created_at_ms: 5,
    };
    let p = provider_from_row(row).unwrap();
    assert_eq!(p.scope, vec!["openid".to_string(), "email".to_string()]);
    assert_eq!(
        p.token_endpoint_auth_method,
        OAuthClientAuthenticationMethod::ClientSecretBasic
    );

    let row = ProviderRow {
        id: uid(3),
        issuer: "https://idp.example".to_string(),
        scope: "".to_string(),
        client_id: "rp".to_string(),
        encrypted_client_secret: None,
        token_endpoint_signing_alg: None,
        token_endpoint_auth_method: "client_secret_basic".to_string(),
        created_at_ms: 5,
    };
    assert_eq!(provider_from_row(row).map(|_| ()), Err(ProviderLookupError::Inconsistency));

    assert_eq!(
        parse_auth_method(&"none".to_string()),
        Some(OAuthClientAuthenticationMethod::NoAuthentication)
    );
    assert_eq!(parse_auth_method(&"bogus".to_string()), None);

    let not_found = ProviderLookupError::Driver { row_not_found: true };
    assert!(not_found.not_found());
    assert!(!ProviderLookupError::Inconsistency.not_found());
}

#[test]
fn csrf_defaults_to_one_hour() {
    let c = CsrfConfig::default();
    assert_eq!(c.ttl_s, 3600);
    assert_eq!(CsrfConfig::generate().ttl_s, 3600);
    assert_eq!(CsrfConfig::path(), "csrf");
}

#[test]
fn identifiers_render_to_their_sql_names() {
    assert_eq!(UserSessions::Table.unquoted(), "user_sessions");
    assert_eq!(UserSessions::FinishedAt.unquoted(), "finished_at");
    assert_eq!(Users::PrimaryUserEmailId.unquoted(), "primary_user_email_id");
    assert_eq!(OAuth2Sessions::Table.unquoted(), "oauth2_sessions");
    assert_eq!(OAuth2Sessions::OAuth2ClientId.unquoted(), "oauth2_client_id");
    assert_eq!(
        UpstreamOAuthProviders::UpstreamOAuthProviderId.unquoted(),
        "upstream_oauth_provider_id"
    );
}
