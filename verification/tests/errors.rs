use authz_flow::dispatch::{back_to_client, ClientReply};
use authz_flow::engine::OAuth2ClientConfig;
use authz_flow::errors::{
    error_params, translate_error, ErrorDisposition, OAuth2ErrorCode, PartialParams,
};
use authz_flow::response_mode::ResponseMode;

fn clients() -> Vec<OAuth2ClientConfig> {
    vec![OAuth2ClientConfig {
        client_id: "client-1".to_string(),
        redirect_uris: vec!["https://rp.example/cb".to_string()],
    }]
}

#[test]
fn error_without_client_id_stays_local() {
    let q = PartialParams { client_id: None, redirect_uri: None, state: None };
    assert!(matches!(translate_error(&q, &clients()), ErrorDisposition::LocalPage));
}

#[test]
fn error_with_unknown_client_stays_local() {
    let q = PartialParams {
        client_id: Some("nobody".to_string()),
        redirect_uri: Some("https://rp.example/cb".to_string()),
        state: None,
    };
    assert!(matches!(translate_error(&q, &clients()), ErrorDisposition::LocalPage));
}

#[test]
fn error_with_unregistered_uri_stays_local() {
    let q = PartialParams {
        client_id: Some("client-1".to_string()),
        redirect_uri: Some("https://evil.example/cb".to_string()),
        state: None,
    };
    assert!(matches!(translate_error(&q, &clients()), ErrorDisposition::LocalPage));
}

#[test]
fn recovered_error_redirects_to_the_client_with_query_mode() {
    let q = PartialParams {
        client_id: Some("client-1".to_string()),
        redirect_uri: Some("https://rp.example/cb".to_string()),
        state: Some("s7".to_string()),
    };
    match translate_error(&q, &clients()) {
        ErrorDisposition::ClientRedirect { redirect_uri, response_mode, state } => {
            assert_eq!(response_mode, ResponseMode::Query);
            assert_eq!(state.as_deref(), Some("s7"));

            let reply = back_to_client(
                &redirect_uri,
                response_mode,
                state.as_ref(),
                &error_params(OAuth2ErrorCode::InvalidRequest),
            )
            .unwrap();
            match reply {
                ClientReply::Redirect { location } => {
                    assert_eq!(
                        location,
                        "https://rp.example/cb?state=s7&error=invalid_request"
                    );
                }
                _ => panic!("expected a redirect"),
            }
        }
        ErrorDisposition::LocalPage => panic!("expected a client redirect"),
    }
}

#[test]
fn error_without_declared_uri_uses_the_registered_default() {
    let q = PartialParams {
        client_id: Some("client-1".to_string()),
        redirect_uri: None,
        state: None,
    };
    match translate_error(&q, &clients()) {
        ErrorDisposition::ClientRedirect { redirect_uri, .. } => {
            assert_eq!(redirect_uri.assemble(), "https://rp.example/cb");
        }
        ErrorDisposition::LocalPage => panic!("expected a client redirect"),
    }
}

#[test]
fn error_codes_render_to_their_wire_names() {
    let p = error_params(OAuth2ErrorCode::InvalidRequest);
    assert_eq!(p, vec![("error".to_string(), "invalid_request".to_string())]);
    let p = error_params(OAuth2ErrorCode::ServerError);
    assert_eq!(p, vec![("error".to_string(), "server_error".to_string())]);
}
