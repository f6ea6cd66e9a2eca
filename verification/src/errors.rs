//! The error-to-client translator: decide, for a late-stage failure, whether
//! the error can safely be redirected back to the client per the OAuth2
//! error-response rules, or must be shown as a local error page.
//!
//! A validation error found before a trustworthy redirect URI is known is
//! never redirected — that would be an open redirect.

use vstd::prelude::*;

use crate::dispatch::ClientReply;
use crate::engine::find_client;
use crate::engine::spec_find_client;
use crate::engine::OAuth2ClientConfig;
use crate::response_mode::ResponseMode;
use crate::url_parts::UrlParts;

verus! {

/// The raw, unvalidated parameters recovered from a failed request.
pub struct PartialParams {
    pub client_id: Option<String>,
    pub redirect_uri: Option<String>,
    pub state: Option<String>,
}

/// The OAuth2 error codes this engine sends back.
#[derive(Clone, Copy, PartialEq, Eq, Structural, Debug)]
pub enum OAuth2ErrorCode {
    /// The request is malformed or carries an illegal combination.
    InvalidRequest,
    /// An internal failure; nothing was committed.
    ServerError,
}

impl OAuth2ErrorCode {
    /// The wire name of this error code.
    pub fn code_str(&self) -> (r: &'static str)
        ensures
            match self {
                OAuth2ErrorCode::InvalidRequest => r@ == "invalid_request"@,
                OAuth2ErrorCode::ServerError => r@ == "server_error"@,
            },
    {
        match self {
            OAuth2ErrorCode::InvalidRequest => "invalid_request",
            OAuth2ErrorCode::ServerError => "server_error",
        }
    }
}

/// The OAuth2 error-response shape as a parameter bag: the `error` member.
/// The dispatcher adds the `state` echo itself.
pub fn error_params(e: OAuth2ErrorCode) -> (r: Vec<(String, String)>)
    ensures
        r@.len() == 1,
        r@[0].0@ == "error"@,
        match e {
            OAuth2ErrorCode::InvalidRequest => r@[0].1@ == "invalid_request"@,
            OAuth2ErrorCode::ServerError => r@[0].1@ == "server_error"@,
        },
{
    proof {
        reveal_strlit("error");
    }
    let mut r: Vec<(String, String)> = Vec::new();
    let code = e.code_str();
    r.push((String::from_str("error"), String::from_str(code)));
    r
}

/// What a handler hands back: a finished reply, parameters to deliver to the
/// client's redirect URI, or an error still to be translated.
pub enum ReplyOrBackToClient {
    /// A response that is already shaped (a login or re-auth redirect, a
    /// rendered page).
    Reply(ClientReply),
    /// Deliver these parameters to the client per the stored response mode.
    BackToClient {
        params: Vec<(String, String)>,
        redirect_uri: UrlParts,
        response_mode: ResponseMode,
        state: Option<String>,
    },
    /// A failure that may be redirected to the client if one can be
    /// established from the raw request parameters.
    OAuthError(OAuth2ErrorCode),
}

/// Where a failure is shown.
pub enum ErrorDisposition {
    /// Nothing trustworthy to redirect to: render a local error page.
    LocalPage,
    /// The client and its redirect URI were established: deliver the OAuth2
    /// error object there, with the `state` echo.
    ClientRedirect {
        redirect_uri: UrlParts,
        response_mode: ResponseMode,
        state: Option<String>,
    },
}

/// Attempt, in order: recover the declared `client_id`, resolve that client,
/// resolve the declared `redirect_uri` against its allow-list. The first
/// step that fails falls back to a local error page; success yields a
/// client-directed error redirect.
///
/// The error redirect always uses response mode `query`: by the time an
/// error lands here the requested mode may be unknown, and no attempt is
/// made to recover it from the raw response types — a deliberate
/// simplification, since an error object carries no credential. A suggested
/// URI that is not registered verbatim fails resolution, which also covers
/// unparseable URIs.
pub fn translate_error(q: &PartialParams, clients: &Vec<OAuth2ClientConfig>) -> (r:
    ErrorDisposition)
    ensures
        match r {
            ErrorDisposition::LocalPage => q.client_id is None || (q.client_id matches Some(cid)
                && (spec_find_client(clients@, cid@) is None || (spec_find_client(
                clients@,
                cid@,
            ) matches Some(i) && clients@[i].spec_resolve_redirect_uri(
                match q.redirect_uri {
                    Some(u) => Some(u@),
                    None => None,
                },
            ) is None))),
            ErrorDisposition::ClientRedirect { redirect_uri, response_mode, state } => q.client_id
                matches Some(cid) && spec_find_client(clients@, cid@) matches Some(i) && {
                &&& clients@[i].spec_resolve_redirect_uri(
                    match q.redirect_uri {
                        Some(u) => Some(u@),
                        None => None,
                    },
                ) == Some(redirect_uri.to_url())
                &&& redirect_uri.wf()
                &&& response_mode == ResponseMode::Query
                &&& state == q.state
            },
        },
{
    let cid = match &q.client_id {
        Some(c) => c,
        None => {
            return ErrorDisposition::LocalPage;
        },
    };
    let ci = match find_client(clients, cid) {
        Some(i) => i,
        None => {
            return ErrorDisposition::LocalPage;
        },
    };
    let resolved = match clients[ci].resolve_redirect_uri(
        match &q.redirect_uri {
            Some(u) => Some(u),
            None => None,
        },
    ) {
        Some(u) => u,
        None => {
            return ErrorDisposition::LocalPage;
        },
    };
    ErrorDisposition::ClientRedirect {
        redirect_uri: UrlParts::parse(resolved.as_str()),
        response_mode: ResponseMode::Query,
        state: match &q.state {
            Some(s) => Some(s.clone()),
            None => None,
        },
    }
}

} // verus!
