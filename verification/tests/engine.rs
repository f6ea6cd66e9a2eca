use authz_flow::dispatch::{back_to_client, ClientReply};
use authz_flow::engine::{
    begin_authorization, login_redirect, step, AuthorizationRequest, AuthorizeError,
    BrowserSessionInfo, OAuth2ClientConfig, StepError, StepOutcome, StepRequest,
};
use authz_flow::ledger::TimeOrderedId;
use authz_flow::response_mode::{ResponseMode, ResponseTypeSet};

const NOW: i64 = 1_700_000_000_000;

fn clients() -> Vec<OAuth2ClientConfig> {
    vec![OAuth2ClientConfig {
        client_id: "client-1".to_string(),
        redirect_uris: vec!["https://rp.example/cb".to_string()],
    }]
}

fn request(rt: ResponseTypeSet) -> AuthorizationRequest {
    AuthorizationRequest {
        client_id: "client-1".to_string(),
        redirect_uri: Some("https://rp.example/cb".to_string()),
        scope: vec!["openid".to_string(), "profile".to_string()],
        state: Some("st123".to_string()),
        nonce: None,
        max_age: None,
        response_type: rt,
        response_mode: None,
        pkce: None,
    }
}

fn code_only() -> ResponseTypeSet {
    ResponseTypeSet { code: true, token: false, id_token: false }
}

fn id_value(id: TimeOrderedId) -> u128 {
    ((id.timestamp_ms as u128) << 80) | id.random
}

#[test]
fn begin_fills_the_session_from_the_request() {
    let session = begin_authorization(&clients(), &request(code_only()), NOW).unwrap();
    assert_eq!(session.client_id, "client-1");
    assert_eq!(session.redirect_uri.assemble(), "https://rp.example/cb");
    assert_eq!(session.scope, "openid profile");
    assert_eq!(session.state.as_deref(), Some("st123"));
    assert_eq!(session.response_mode, ResponseMode::Query);
    assert_eq!(session.created_at_ms, NOW);
    assert!(session.browser_session_id.is_none());
    assert!(session.completed_at_ms.is_none());
}

#[test]
fn begin_rejects_unknown_client() {
    let mut req = request(code_only());
    req.client_id = "nobody".to_string();
    assert_eq!(
        begin_authorization(&clients(), &req, NOW).map(|_| ()),
        Err(AuthorizeError::UnknownClient)
    );
}

#[test]
fn begin_rejects_unregistered_redirect_uri() {
    let mut req = request(code_only());
    req.redirect_uri = Some("https://evil.example/cb".to_string());
    assert_eq!(
        begin_authorization(&clients(), &req, NOW).map(|_| ()),
        Err(AuthorizeError::InvalidRedirectUri)
    );
}

#[test]
fn begin_rejects_query_mode_for_token_requests() {
    let mut req = request(ResponseTypeSet { code: false, token: true, id_token: false });
    req.response_mode = Some(ResponseMode::Query);
    assert_eq!(
        begin_authorization(&clients(), &req, NOW).map(|_| ()),
        Err(AuthorizeError::IllegalResponseMode)
    );
}

#[test]
fn begin_defaults_to_first_registered_uri() {
    let mut req = request(code_only());
    req.redirect_uri = None;
    let session = begin_authorization(&clients(), &req, NOW).unwrap();
    assert_eq!(session.redirect_uri.assemble(), "https://rp.example/cb");
}

#[test]
fn code_is_32_alphanumeric_and_generated_once() {
    let session = begin_authorization(&clients(), &request(code_only()), NOW).unwrap();
    let code = session.code.clone().unwrap();
    assert_eq!(code.len(), 32);
    assert!(code.chars().all(|c| c.is_ascii_alphanumeric()));

    let browser = BrowserSessionInfo {
        id: TimeOrderedId::new(NOW as u64, 5),
        last_authentication_ms: Some(NOW),
    };
    let (s2, outcome) = step(session, &browser, NOW + 1_000).unwrap();
    let first_delivery = match outcome {
        StepOutcome::Completed { params, .. } => params[0].1.clone(),
        _ => panic!("expected completion"),
    };
    assert_eq!(first_delivery, code);

    // A second re-entry redelivers the same code, never a fresh one.
    let (s3, outcome) = step(s2, &browser, NOW + 2_000).unwrap();
    let second_delivery = match outcome {
        StepOutcome::Completed { params, .. } => params[0].1.clone(),
        _ => panic!("expected completion"),
    };
    assert_eq!(second_delivery, code);
    assert_eq!(s3.code.as_deref(), Some(code.as_str()));
}

#[test]
fn code_flow_end_to_end() {
    // Entry with no browser session: the engine sends the user to login,
    // carrying a step continuation for the created session.
    let session = begin_authorization(&clients(), &request(code_only()), NOW).unwrap();
    match login_redirect(session.id) {
        ClientReply::Redirect { location } => {
            let expected = format!(
                "/login?next=%2Foauth2%2Fauthorize%2Fstep%3Fid%3D{}",
                id_value(session.id)
            );
            assert_eq!(location, expected);
        }
        _ => panic!("expected a redirect to login"),
    }
    assert_eq!(
        StepRequest::new(session.id).build_uri(),
        format!("/oauth2/authorize/step?id={}", id_value(session.id))
    );

    // Re-entry with a fresh browser session completes the flow.
    let browser = BrowserSessionInfo {
        id: TimeOrderedId::new(NOW as u64, 6),
        last_authentication_ms: Some(NOW),
    };
    let (s2, outcome) = step(session, &browser, NOW + 1_000).unwrap();
    assert_eq!(s2.browser_session_id, Some(browser.id));
    let params = match outcome {
        StepOutcome::Completed { params, issued } => {
            assert!(issued.is_none());
            params
        }
        _ => panic!("expected completion"),
    };

    let reply = back_to_client(
        &s2.redirect_uri,
        s2.response_mode,
        s2.state.as_ref(),
        &params,
    )
    .unwrap();
    match reply {
        ClientReply::Redirect { location } => {
            let code = s2.code.clone().unwrap();
            assert_eq!(
                location,
                format!("https://rp.example/cb?state=st123&code={}", code)
            );
        }
        _ => panic!("expected a redirect to the client"),
    }
}

#[test]
fn stale_authentication_requires_reauth() {
    // A token request with a max_age bound and a browser session last
    // authenticated before that horizon.
    let mut req = request(ResponseTypeSet { code: false, token: true, id_token: false });
    req.max_age = Some(60);
    let session = begin_authorization(&clients(), &req, NOW).unwrap();
    assert_eq!(session.response_mode, ResponseMode::Fragment);
    assert!(session.code.is_none());

    let stale = BrowserSessionInfo {
        id: TimeOrderedId::new(NOW as u64, 7),
        last_authentication_ms: Some(NOW - 120_000),
    };
    let (s2, outcome) = step(session, &stale, NOW).unwrap();
    assert!(matches!(outcome, StepOutcome::ReauthRequired));
    assert_eq!(s2.browser_session_id, Some(stale.id));
    assert!(s2.completed_at_ms.is_none());
}

#[test]
fn token_completion_issues_both_tokens() {
    let req = request(ResponseTypeSet { code: false, token: true, id_token: false });
    let session = begin_authorization(&clients(), &req, NOW).unwrap();
    let browser = BrowserSessionInfo {
        id: TimeOrderedId::new(NOW as u64, 8),
        last_authentication_ms: Some(NOW),
    };
    let (_s2, outcome) = step(session, &browser, NOW).unwrap();
    match outcome {
        StepOutcome::Completed { params, issued } => {
            let issued = issued.unwrap();
            assert_eq!(params.len(), 4);
            assert_eq!(params[0].0, "access_token");
            assert_eq!(params[0].1, issued.access_token);
            assert_eq!(params[1], ("token_type".to_string(), "Bearer".to_string()));
            assert_eq!(params[2], ("expires_in".to_string(), "300".to_string()));
            assert_eq!(params[3].0, "refresh_token");
            assert_eq!(params[3].1, issued.refresh_token);
            assert_eq!(issued.expires_in_s, 300);
            assert_eq!(issued.access_token.len(), 32);
            assert_eq!(issued.refresh_token.len(), 32);
            assert_ne!(issued.access_token, issued.refresh_token);
        }
        _ => panic!("expected completion"),
    }
}

#[test]
fn id_token_requests_are_unimplemented() {
    let req = request(ResponseTypeSet { code: false, token: false, id_token: true });
    let session = begin_authorization(&clients(), &req, NOW).unwrap();
    let browser = BrowserSessionInfo {
        id: TimeOrderedId::new(NOW as u64, 9),
        last_authentication_ms: Some(NOW),
    };
    assert_eq!(
        step(session, &browser, NOW).map(|_| ()),
        Err(StepError::IdTokenUnsupported)
    );
}

#[test]
fn attaching_a_different_browser_session_is_rejected() {
    let session = begin_authorization(&clients(), &request(code_only()), NOW).unwrap();
    let first = BrowserSessionInfo {
        id: TimeOrderedId::new(NOW as u64, 10),
        last_authentication_ms: Some(NOW),
    };
    let (s2, _) = step(session, &first, NOW).unwrap();
    let other = BrowserSessionInfo {
        id: TimeOrderedId::new(NOW as u64, 11),
        last_authentication_ms: Some(NOW),
    };
    assert_eq!(
        step(s2, &other, NOW).map(|_| ()),
        Err(StepError::BrowserSessionMismatch)
    );
}
