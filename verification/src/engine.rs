//! The authorization-flow engine: validate an inbound authorization request
//! into a persisted session, gate completion on a sufficiently fresh browser
//! session, and issue the code/token response parameters.
//!
//! The engine is pure with respect to storage and the clock: it takes the
//! current instant and the relevant records as values, and returns the
//! updated session together with the action to perform, so callers can wrap
//! every mutation in one transaction.

use vstd::prelude::*;
use vstd::string::StringExecFns;

use crate::dispatch::ClientReply;
use crate::entropy::alnum32;
use crate::entropy::fresh_id_at;
use crate::entropy::random_alphanumeric32;
use crate::ledger::TimeOrderedId;
use crate::response_mode::resolve_response_mode;
use crate::response_mode::resolved_mode;
use crate::response_mode::ResponseMode;
use crate::response_mode::ResponseTypeSet;
use crate::strutil::ascii_chars;
use crate::strutil::ascii_to_string;
use crate::strutil::dec_bytes_of;
use crate::strutil::uint_to_dec;
use crate::url_parts::UrlParts;
use crate::urlencode::enc_bytes;

verus! {

/// A PKCE code challenge presented with the authorization request.
pub struct PkceChallenge {
    /// The challenge method name (`plain` or `S256`), kept opaque.
    pub code_challenge_method: String,
    /// The challenge value the token exchange will be held to.
    pub code_challenge: String,
}

impl PkceChallenge {
    /// A field-for-field copy.
    pub fn duplicate(&self) -> (r: PkceChallenge)
        ensures
            r == *self,
    {
        PkceChallenge {
            code_challenge_method: self.code_challenge_method.clone(),
            code_challenge: self.code_challenge.clone(),
        }
    }
}

/// A registered OAuth2 client: its identifier and redirect-URI allow-list.
pub struct OAuth2ClientConfig {
    pub client_id: String,
    pub redirect_uris: Vec<String>,
}

/// The index of the first registered client with this id.
pub open spec fn spec_find_client(clients: Seq<OAuth2ClientConfig>, id: Seq<char>) -> Option<int>
    decreases clients.len(),
{
    if clients.len() == 0 {
        None
    } else if clients[0].client_id@ == id {
        Some(0)
    } else {
        match spec_find_client(clients.drop_first(), id) {
            Some(i) => Some(i + 1),
            None => None,
        }
    }
}

/// A found client carries the looked-up id, and no earlier one does.
proof fn lemma_find_client_range(clients: Seq<OAuth2ClientConfig>, id: Seq<char>)
    ensures
        spec_find_client(clients, id) matches Some(i) ==> 0 <= i < clients.len()
            && clients[i].client_id@ == id,
        spec_find_client(clients, id) is None ==> forall|k: int|
            0 <= k < clients.len() ==> (#[trigger] clients[k]).client_id@ != id,
    decreases clients.len(),
{
    if clients.len() > 0 && clients[0].client_id@ != id {
        lemma_find_client_range(clients.drop_first(), id);
        assert(forall|k: int| 1 <= k < clients.len() ==> clients[k] == clients.drop_first()[k - 1]);
    }
}

impl OAuth2ClientConfig {
    /// The redirect URI this client may use: a suggested URI must stand in
    /// the allow-list verbatim; with no suggestion, the first registered URI
    /// is the default.
    pub open spec fn spec_resolve_redirect_uri(self, suggested: Option<Seq<char>>) -> Option<
        Seq<char>,
    > {
        match suggested {
            Some(u) => if exists|i: int|
                0 <= i < self.redirect_uris@.len() && (#[trigger] self.redirect_uris@[i])@ == u {
                Some(u)
            } else {
                None
            },
            None => if self.redirect_uris@.len() > 0 {
                Some(self.redirect_uris@[0]@)
            } else {
                None
            },
        }
    }

    /// Executable counterpart of [`Self::spec_resolve_redirect_uri`].
    pub fn resolve_redirect_uri(&self, suggested: Option<&String>) -> (r: Option<String>)
        ensures
            match r {
                Some(u) => self.spec_resolve_redirect_uri(
                    match suggested {
                        Some(s) => Some(s@),
                        None => None,
                    },
                ) == Some(u@),
                None => self.spec_resolve_redirect_uri(
                    match suggested {
                        Some(s) => Some(s@),
                        None => None,
                    },
                ) is None,
            },
    {
        match suggested {
            Some(u) => {
                if string_list_contains(&self.redirect_uris, u) {
                    Some(u.clone())
                } else {
                    None
                }
            },
            None => {
                if self.redirect_uris.len() > 0 {
                    Some(self.redirect_uris[0].clone())
                } else {
                    None
                }
            },
        }
    }
}

/// Does the list hold a string with this value?
pub fn string_list_contains(v: &Vec<String>, u: &String) -> (r: bool)
    ensures
        r == exists|i: int| 0 <= i < v@.len() && (#[trigger] v@[i])@ == u@,
{
    let n = v.len();
    let mut i: usize = 0;
    while i < n
        invariant
            n == v@.len(),
            i <= n,
            forall|k: int| 0 <= k < i ==> (#[trigger] v@[k])@ != u@,
        decreases n - i,
    {
        if v[i] == *u {
            proof {
                assert((v@[i as int])@ == u@);
            }
            return true;
        }
        i = i + 1;
    }
    false
}

/// An inbound authorization request, already decoded from the query string.
pub struct AuthorizationRequest {
    pub client_id: String,
    pub redirect_uri: Option<String>,
    /// The requested scope tokens, order preserved.
    pub scope: Vec<String>,
    pub state: Option<String>,
    pub nonce: Option<String>,
    /// Maximum age of the user's authentication, in seconds.
    pub max_age: Option<u64>,
    pub response_type: ResponseTypeSet,
    pub response_mode: Option<ResponseMode>,
    pub pkce: Option<PkceChallenge>,
}

/// The scope tokens joined with single spaces, order preserved.
pub open spec fn joined_scope(ts: Seq<Seq<char>>) -> Seq<char>
    decreases ts.len(),
{
    if ts.len() == 0 {
        Seq::<char>::empty()
    } else if ts.len() == 1 {
        ts[0]
    } else {
        joined_scope(ts.drop_last()) + seq![' '] + ts.last()
    }
}

/// The views of a list of strings.
pub open spec fn strs_view(ts: Seq<String>) -> Seq<Seq<char>> {
    ts.map_values(|t: String| t@)
}

/// Join scope tokens with single spaces, order preserved.
pub fn join_scope(ts: &Vec<String>) -> (r: String)
    ensures
        r@ == joined_scope(strs_view(ts@)),
{
    proof {
        reveal_strlit(" ");
    }
    let mut r = String::new();
    let n = ts.len();
    let mut i: usize = 0;
    while i < n
        invariant
            n == ts@.len(),
            i <= n,
            r@ == joined_scope(strs_view(ts@).take(i as int)),
            " "@ == seq![' '],
        decreases n - i,
    {
        proof {
            assert(strs_view(ts@).take(i + 1).drop_last() =~= strs_view(ts@).take(i as int));
            assert(strs_view(ts@).take(i + 1).last() == strs_view(ts@)[i as int]);
        }
        if i > 0 {
            r.append(" ");
        }
        r.append(ts[i].as_str());
        proof {
            if i == 0 {
                assert(r@ =~= joined_scope(strs_view(ts@).take(1)));
            }
        }
        i = i + 1;
    }
    proof {
        assert(strs_view(ts@).take(n as int) =~= strs_view(ts@));
    }
    r
}

/// One in-progress authorization attempt, as persisted.
pub struct AuthorizationSession {
    /// Opaque unique id; time-ordered, so it also orders session freshness.
    pub id: TimeOrderedId,
    pub client_id: String,
    pub redirect_uri: UrlParts,
    /// Space-joined requested scope, order preserved.
    pub scope: String,
    pub state: Option<String>,
    pub nonce: Option<String>,
    pub max_age: Option<u64>,
    pub response_type: ResponseTypeSet,
    pub response_mode: ResponseMode,
    pub pkce: Option<PkceChallenge>,
    pub created_at_ms: i64,
    /// The browser session attached once the user is known.
    pub browser_session_id: Option<TimeOrderedId>,
    /// The authorization code, generated at most once, at creation.
    pub code: Option<String>,
    pub completed_at_ms: Option<i64>,
}

impl AuthorizationSession {
    /// The session invariant: the response mode is legal for the response
    /// types (never `query` alongside `token`/`id_token`), a code exists
    /// exactly when `code` was requested, and any code is a 32-character
    /// alphanumeric string.
    pub open spec fn wf(self) -> bool {
        &&& (self.response_type.spec_implicit() ==> self.response_mode != ResponseMode::Query)
        &&& (self.code is Some <==> self.response_type.code)
        &&& (self.code matches Some(c) ==> alnum32(c@))
        &&& self.redirect_uri.wf()
    }

    /// The instant before which an attached authentication is too old, if
    /// the request bounded it.
    pub open spec fn max_auth_time_ms(self) -> Option<int> {
        match self.max_age {
            Some(ma) => Some(self.created_at_ms - ma * 1000),
            None => None,
        }
    }
}

/// Rejection of an authorization request before a session exists.
#[derive(Clone, Copy, PartialEq, Eq, Structural, Debug)]
pub enum AuthorizeError {
    /// The declared client id is not registered; nothing can be redirected
    /// safely.
    UnknownClient,
    /// The declared redirect URI is not in the client's allow-list (or no
    /// URI is registered); nothing can be redirected safely.
    InvalidRedirectUri,
    /// The suggested response mode is illegal for the requested response
    /// types; the redirect URI is known, so the error may go to the client.
    IllegalResponseMode,
}

/// Look up a registered client by id.
pub fn find_client(clients: &Vec<OAuth2ClientConfig>, id: &String) -> (r: Option<usize>)
    ensures
        match r {
            Some(i) => spec_find_client(clients@, id@) == Some(i as int) && i < clients@.len()
                && clients@[i as int].client_id@ == id@,
            None => spec_find_client(clients@, id@) is None,
        },
{
    let n = clients.len();
    let mut i: usize = 0;
    while i < n
        invariant
            n == clients@.len(),
            i <= n,
            forall|k: int| 0 <= k < i ==> (#[trigger] clients@[k]).client_id@ != id@,
        decreases n - i,
    {
        if clients[i].client_id == *id {
            proof {
                lemma_find_client_first(clients@, id@, i as int);
            }
            return Some(i);
        }
        i = i + 1;
    }
    proof {
        lemma_find_client_range(clients@, id@);
    }
    None
}

/// Validate an authorization request against the registered clients and turn
/// it into a new session: the client must be known, the redirect URI must
/// resolve against its allow-list, the response mode is resolved, and a code
/// is generated now — within the same transaction as the session — exactly
/// when `code` was requested.
pub fn begin_authorization(
    clients: &Vec<OAuth2ClientConfig>,
    request: &AuthorizationRequest,
    now_ms: i64,
) -> (r: Result<AuthorizationSession, AuthorizeError>)
    requires
        0 <= now_ms,
    ensures
        match r {
            Ok(s) => {
                &&& spec_find_client(clients@, request.client_id@) is Some
                &&& {
                    let c = clients@[spec_find_client(clients@, request.client_id@)->Some_0];
                    let uri = c.spec_resolve_redirect_uri(
                        match request.redirect_uri {
                            Some(u) => Some(u@),
                            None => None,
                        },
                    );
                    &&& uri is Some
                    &&& s.redirect_uri.to_url() == uri->Some_0
                }
                &&& Ok::<ResponseMode, crate::response_mode::InvalidResponseMode>(s.response_mode)
                    == resolved_mode(request.response_type, request.response_mode)
                &&& s.wf()
                &&& s.client_id@ == request.client_id@
                &&& s.scope@ == joined_scope(strs_view(request.scope@))
                &&& s.state == request.state
                &&& s.nonce == request.nonce
                &&& s.max_age == request.max_age
                &&& s.response_type == request.response_type
                &&& s.created_at_ms == now_ms
                &&& s.browser_session_id is None
                &&& s.completed_at_ms is None
                &&& s.id.wf()
                &&& s.pkce == request.pkce
            },
            Err(e) => match e {
                AuthorizeError::UnknownClient => spec_find_client(
                    clients@,
                    request.client_id@,
                ) is None,
                AuthorizeError::InvalidRedirectUri => spec_find_client(
                    clients@,
                    request.client_id@,
                ) matches Some(i) && clients@[i].spec_resolve_redirect_uri(
                    match request.redirect_uri {
                        Some(u) => Some(u@),
                        None => None,
                    },
                ) is None,
                AuthorizeError::IllegalResponseMode => spec_find_client(
                    clients@,
                    request.client_id@,
                ) matches Some(i) && clients@[i].spec_resolve_redirect_uri(
                    match request.redirect_uri {
                        Some(u) => Some(u@),
                        None => None,
                    },
                ) is Some && resolved_mode(request.response_type, request.response_mode) is Err,
            },
        },
{
    let client = match find_client(clients, &request.client_id) {
        Some(i) => &clients[i],
        None => {
            return Err(AuthorizeError::UnknownClient);
        },
    };
    let resolved_uri = match client.resolve_redirect_uri(
        match &request.redirect_uri {
            Some(u) => Some(u),
            None => None,
        },
    ) {
        Some(u) => u,
        None => {
            return Err(AuthorizeError::InvalidRedirectUri);
        },
    };
    let response_mode = match resolve_response_mode(&request.response_type, request.response_mode) {
        Ok(m) => m,
        Err(_) => {
            return Err(AuthorizeError::IllegalResponseMode);
        },
    };
    let code: Option<String> = if request.response_type.code {
        Some(random_alphanumeric32())
    } else {
        None
    };
    let session = AuthorizationSession {
        id: fresh_id_at(now_ms as u64),
        client_id: request.client_id.clone(),
        redirect_uri: UrlParts::parse(resolved_uri.as_str()),
        scope: join_scope(&request.scope),
        state: match &request.state {
            Some(s) => Some(s.clone()),
            None => None,
        },
        nonce: match &request.nonce {
            Some(s) => Some(s.clone()),
            None => None,
        },
        max_age: request.max_age,
        response_type: request.response_type,
        response_mode,
        pkce: match &request.pkce {
            Some(p) => Some(p.duplicate()),
            None => None,
        },
        created_at_ms: now_ms,
        browser_session_id: None,
        code,
        completed_at_ms: None,
    };
    Ok(session)
}

/// The `step` continuation: re-enters the engine at [`step`] for a session.
pub struct StepRequest {
    pub id: TimeOrderedId,
}

/// The path the continuation re-enters at, with the session id as its query.
pub open spec fn step_uri_chars(id: TimeOrderedId) -> Seq<char> {
    "/oauth2/authorize/step?id="@ + ascii_chars(dec_bytes_of(id.spec_value() as nat))
}

impl StepRequest {
    /// A continuation for this session.
    pub fn new(id: TimeOrderedId) -> (r: Self)
        ensures
            r.id == id,
    {
        StepRequest { id }
    }

    /// The URI that re-enters the engine at this session's `step`.
    pub fn build_uri(&self) -> (r: String)
        requires
            self.id.wf(),
        ensures
            r@ == step_uri_chars(self.id),
    {
        let mut r = String::new();
        r.append("/oauth2/authorize/step?id=");
        let digits = uint_to_dec(self.id.value());
        r.append(digits.as_str());
        proof {
            assert(r@ =~= step_uri_chars(self.id));
        }
        r
    }
}

/// The redirect that sends the user to the login entry point, carrying the
/// `step` continuation for this session.
pub open spec fn login_uri_chars(id: TimeOrderedId) -> Seq<char> {
    "/login?next="@ + ascii_chars(enc_bytes(vstd::utf8::encode_utf8(step_uri_chars(id))))
}

/// The reply for an authorization request with no authenticated browser
/// session: redirect to login, with a continuation back into [`step`].
pub fn login_redirect(session_id: TimeOrderedId) -> (r: ClientReply)
    requires
        session_id.wf(),
    ensures
        r matches ClientReply::Redirect { location } && location@ == login_uri_chars(session_id),
{
    let step_uri = StepRequest::new(session_id).build_uri();
    let step_bytes = step_uri.as_str().as_bytes_vec();
    let mut enc: Vec<u8> = Vec::new();
    crate::urlencode::encode_bytes_append(&mut enc, &step_bytes);
    proof {
        crate::dispatch::lemma_enc_bytes_ascii(step_bytes@);
    }
    let encoded = ascii_to_string(enc);
    let mut location = String::new();
    location.append("/login?next=");
    location.append(encoded.as_str());
    proof {
        assert(location@ =~= login_uri_chars(session_id));
    }
    ClientReply::Redirect { location }
}

/// What the engine reads of an authenticated browser session: its id, and
/// when the user last proved who they are.
pub struct BrowserSessionInfo {
    pub id: TimeOrderedId,
    pub last_authentication_ms: Option<i64>,
}

/// The attached authentication is recent enough for this session's `max_age`
/// bound: with no bound, any browser session counts; with a bound, the last
/// authentication must not predate it.
pub open spec fn spec_fresh(s: AuthorizationSession, b: BrowserSessionInfo) -> bool {
    match s.max_auth_time_ms() {
        None => true,
        Some(t) => match b.last_authentication_ms {
            Some(la) => la >= t,
            None => false,
        },
    }
}

/// Executable counterpart of [`spec_fresh`].
pub fn is_fresh(session: &AuthorizationSession, b: &BrowserSessionInfo) -> (r: bool)
    ensures
        r == spec_fresh(*session, *b),
{
    match session.max_age {
        None => true,
        Some(ma) => match b.last_authentication_ms {
            None => false,
            Some(la) => (la as i128) >= (session.created_at_ms as i128) - (ma as i128) * 1000,
        },
    }
}

/// The access- and refresh-token pair issued at completion, for the caller
/// to persist in the same transaction as the reply.
pub struct TokenIssuance {
    pub access_token: String,
    pub refresh_token: String,
    /// Fixed access-token lifetime, in seconds.
    pub expires_in_s: u64,
}

/// What a `step` re-entry decided.
pub enum StepOutcome {
    /// The attached authentication is too old: redirect to re-authentication
    /// and come back.
    ReauthRequired,
    /// The flow is complete: deliver these parameters to the client's
    /// redirect URI with the session's response mode and state.
    Completed { params: Vec<(String, String)>, issued: Option<TokenIssuance> },
}

/// A `step` re-entry that cannot proceed.
#[derive(Clone, Copy, PartialEq, Eq, Structural, Debug)]
pub enum StepError {
    /// The session is already attached to a different browser session.
    BrowserSessionMismatch,
    /// `id_token` responses are not implemented.
    IdTokenUnsupported,
}

/// The immutable facts of the session are unchanged.
pub open spec fn spec_same_core(s: AuthorizationSession, s2: AuthorizationSession) -> bool {
    &&& s2.id == s.id
    &&& s2.client_id == s.client_id
    &&& s2.redirect_uri == s.redirect_uri
    &&& s2.scope == s.scope
    &&& s2.state == s.state
    &&& s2.nonce == s.nonce
    &&& s2.max_age == s.max_age
    &&& s2.response_type == s.response_type
    &&& s2.response_mode == s.response_mode
    &&& s2.pkce == s.pkce
    &&& s2.created_at_ms == s.created_at_ms
    &&& s2.code == s.code
}

/// The completion parameter bag is exactly what the session owes: its code
/// when `code` was requested, then the access-token response when `token`
/// was requested.
pub open spec fn spec_completion_params(
    s: AuthorizationSession,
    params: Seq<(String, String)>,
    issued: Option<TokenIssuance>,
) -> bool {
    let cskip: int = if s.response_type.code {
        1
    } else {
        0
    };
    let tlen: int = if s.response_type.token {
        4
    } else {
        0
    };
    &&& params.len() == cskip + tlen
    &&& (s.response_type.code ==> params[0].0@ == "code"@ && Some(params[0].1) == s.code)
    &&& (s.response_type.token ==> {
        &&& params[cskip].0@ == "access_token"@ && alnum32(params[cskip].1@)
        &&& params[cskip + 1].0@ == "token_type"@ && params[cskip + 1].1@ == "Bearer"@
        &&& params[cskip + 2].0@ == "expires_in"@ && params[cskip + 2].1@ == "300"@
        &&& params[cskip + 3].0@ == "refresh_token"@ && alnum32(params[cskip + 3].1@)
    })
    &&& (issued is Some <==> s.response_type.token)
    &&& (issued matches Some(t) ==> t.access_token == params[cskip].1 && t.refresh_token
        == params[cskip + 3].1 && t.expires_in_s == 300)
}

/// Re-enter the engine for a session: attach the browser session (idempotent
/// when it is already attached; a different one is rejected), then either
/// require re-authentication or complete the flow. The code, generated at
/// creation, is delivered as it stands — never regenerated.
pub fn step(
    session: AuthorizationSession,
    browser_session: &BrowserSessionInfo,
    now_ms: i64,
) -> (r: Result<(AuthorizationSession, StepOutcome), StepError>)
    requires
        session.wf(),
    ensures
        match r {
            Err(e) => match e {
                StepError::BrowserSessionMismatch => session.browser_session_id matches Some(b)
                    && b != browser_session.id,
                StepError::IdTokenUnsupported => (session.browser_session_id is None
                    || session.browser_session_id == Some(browser_session.id)) && spec_fresh(
                    session,
                    *browser_session,
                ) && session.response_type.id_token,
            },
            Ok((s2, outcome)) => {
                &&& session.browser_session_id is None || session.browser_session_id == Some(
                    browser_session.id,
                )
                &&& spec_same_core(session, s2)
                &&& s2.browser_session_id == Some(browser_session.id)
                &&& s2.wf()
                &&& match outcome {
                    StepOutcome::ReauthRequired => !spec_fresh(session, *browser_session)
                        && s2.completed_at_ms == session.completed_at_ms,
                    StepOutcome::Completed { params, issued } => {
                        &&& spec_fresh(session, *browser_session)
                        &&& !session.response_type.id_token
                        &&& s2.completed_at_ms == Some(now_ms)
                        &&& spec_completion_params(s2, params@, issued)
                    },
                }
            },
        },
{
    let mut s2 = session;
    match &s2.browser_session_id {
        Some(b) => {
            if !(*b == browser_session.id) {
                return Err(StepError::BrowserSessionMismatch);
            }
        },
        None => {},
    }
    s2.browser_session_id = Some(browser_session.id);
    if !is_fresh(&s2, browser_session) {
        return Ok((s2, StepOutcome::ReauthRequired));
    }
    let mut params: Vec<(String, String)> = Vec::new();
    if s2.response_type.code {
        proof {
            reveal_strlit("code");
        }
        let code = match &s2.code {
            Some(c) => c.clone(),
            None => {
                proof {
                    assert(false);
                }
                String::new()
            },
        };
        params.push((String::from_str("code"), code));
    }
    let mut issued: Option<TokenIssuance> = None;
    if s2.response_type.token {
        proof {
            reveal_strlit("access_token");
            reveal_strlit("token_type");
            reveal_strlit("Bearer");
            reveal_strlit("expires_in");
            reveal_strlit("300");
            reveal_strlit("refresh_token");
        }
        let access_token = random_alphanumeric32();
        let refresh_token = random_alphanumeric32();
        params.push((String::from_str("access_token"), access_token.clone()));
        params.push((String::from_str("token_type"), String::from_str("Bearer")));
        params.push((String::from_str("expires_in"), String::from_str("300")));
        params.push((String::from_str("refresh_token"), refresh_token.clone()));
        issued = Some(
            TokenIssuance { access_token, refresh_token, expires_in_s: 300 },
        );
    }
    if s2.response_type.id_token {
        return Err(StepError::IdTokenUnsupported);
    }
    s2.completed_at_ms = Some(now_ms);
    Ok((s2, StepOutcome::Completed { params, issued }))
}

/// When `i` is the first index carrying the id, the lookup returns it.
proof fn lemma_find_client_first(clients: Seq<OAuth2ClientConfig>, id: Seq<char>, i: int)
    requires
        0 <= i < clients.len(),
        clients[i].client_id@ == id,
        forall|k: int| 0 <= k < i ==> (#[trigger] clients[k]).client_id@ != id,
    ensures
        spec_find_client(clients, id) == Some(i),
    decreases i,
{
    if i > 0 {
        lemma_find_client_first(clients.drop_first(), id, i - 1);
    }
}

} // verus!
