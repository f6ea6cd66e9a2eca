//! Upstream identity providers: the stored record, and the checks made when
//! one is read back from the store.

use vstd::prelude::*;

use crate::entropy::fresh_id_at;
use crate::ledger::TimeOrderedId;
use crate::scope::parse_scope;
use crate::scope::spec_parse_scope;

verus! {

/// How the provider expects the client to authenticate at its token
/// endpoint.
#[derive(Clone, Copy, PartialEq, Eq, Structural, Debug)]
pub enum OAuthClientAuthenticationMethod {
    NoAuthentication,
    ClientSecretBasic,
    ClientSecretPost,
    ClientSecretJwt,
    PrivateKeyJwt,
}

/// The authentication method a stored name denotes, if any.
pub open spec fn spec_auth_method(s: Seq<char>) -> Option<OAuthClientAuthenticationMethod> {
    if s == "none"@ {
        Some(OAuthClientAuthenticationMethod::NoAuthentication)
    } else if s == "client_secret_basic"@ {
        Some(OAuthClientAuthenticationMethod::ClientSecretBasic)
    } else if s == "client_secret_post"@ {
        Some(OAuthClientAuthenticationMethod::ClientSecretPost)
    } else if s == "client_secret_jwt"@ {
        Some(OAuthClientAuthenticationMethod::ClientSecretJwt)
    } else if s == "private_key_jwt"@ {
        Some(OAuthClientAuthenticationMethod::PrivateKeyJwt)
    } else {
        None
    }
}

/// Parse a stored token-endpoint authentication method name.
pub fn parse_auth_method(s: &String) -> (r: Option<OAuthClientAuthenticationMethod>)
    ensures
        r == spec_auth_method(s@),
{
    if *s == String::from_str("none") {
        Some(OAuthClientAuthenticationMethod::NoAuthentication)
    } else if *s == String::from_str("client_secret_basic") {
        Some(OAuthClientAuthenticationMethod::ClientSecretBasic)
    } else if *s == String::from_str("client_secret_post") {
        Some(OAuthClientAuthenticationMethod::ClientSecretPost)
    } else if *s == String::from_str("client_secret_jwt") {
        Some(OAuthClientAuthenticationMethod::ClientSecretJwt)
    } else if *s == String::from_str("private_key_jwt") {
        Some(OAuthClientAuthenticationMethod::PrivateKeyJwt)
    } else {
        None
    }
}

/// An upstream OAuth 2.0 provider as the engine reads it.
pub struct UpstreamOAuthProvider {
    pub id: TimeOrderedId,
    pub issuer: String,
    /// The scope to request, as parsed tokens.
    pub scope: Vec<String>,
    pub client_id: String,
    pub encrypted_client_secret: Option<String>,
    /// The signing algorithm name, stored opaque.
    pub token_endpoint_signing_alg: Option<String>,
    pub token_endpoint_auth_method: OAuthClientAuthenticationMethod,
    pub created_at_ms: i64,
}

/// A provider row as it comes back from the store, before its fields are
/// checked.
pub struct ProviderRow {
    pub id: TimeOrderedId,
    pub issuer: String,
    pub scope: String,
    pub client_id: String,
    pub encrypted_client_secret: Option<String>,
    pub token_endpoint_signing_alg: Option<String>,
    pub token_endpoint_auth_method: String,
    pub created_at_ms: i64,
}

/// Why a provider lookup failed.
#[derive(Clone, Copy, PartialEq, Eq, Structural, Debug)]
pub enum ProviderLookupError {
    /// The store failed; `row_not_found` says whether it simply had no such
    /// row.
    Driver { row_not_found: bool },
    /// The row exists but does not parse back into a provider.
    Inconsistency,
}

impl ProviderLookupError {
    /// Whether this failure only means the provider does not exist.
    pub fn not_found(&self) -> (r: bool)
        ensures
            r == (*self == (ProviderLookupError::Driver { row_not_found: true })),
    {
        match self {
            ProviderLookupError::Driver { row_not_found } => *row_not_found,
            ProviderLookupError::Inconsistency => false,
        }
    }
}

/// The record a newly added provider holds: a fresh time-ordered id minted
/// at the creation instant, and the given facts unchanged.
pub fn new_provider(
    issuer: String,
    scope: Vec<String>,
    token_endpoint_auth_method: OAuthClientAuthenticationMethod,
    token_endpoint_signing_alg: Option<String>,
    client_id: String,
    encrypted_client_secret: Option<String>,
    now_ms: i64,
) -> (r: UpstreamOAuthProvider)
    requires
        0 <= now_ms,
    ensures
        r.id.wf(),
        r.id.timestamp_ms == now_ms as u64 as int % 0x1000000000000,
        r.issuer == issuer,
        r.scope == scope,
        r.token_endpoint_auth_method == token_endpoint_auth_method,
        r.token_endpoint_signing_alg == token_endpoint_signing_alg,
        r.client_id == client_id,
        r.encrypted_client_secret == encrypted_client_secret,
        r.created_at_ms == now_ms,
{
    UpstreamOAuthProvider {
        id: fresh_id_at(now_ms as u64),
        issuer,
        scope,
        client_id,
        encrypted_client_secret,
        token_endpoint_signing_alg,
        token_endpoint_auth_method,
        created_at_ms: now_ms,
    }
}

/// Check a stored row back into a provider: the scope string and the
/// authentication method name must parse; everything else carries over.
pub fn provider_from_row(row: ProviderRow) -> (r: Result<
    UpstreamOAuthProvider,
    ProviderLookupError,
>)
    ensures
        match r {
            Ok(p) => {
                &&& spec_parse_scope(row.scope@) == Some(p.scope@.map_values(|t: String| t@))
                &&& spec_auth_method(row.token_endpoint_auth_method@) == Some(
                    p.token_endpoint_auth_method,
                )
                &&& p.id == row.id
                &&& p.issuer == row.issuer
                &&& p.client_id == row.client_id
                &&& p.encrypted_client_secret == row.encrypted_client_secret
                &&& p.token_endpoint_signing_alg == row.token_endpoint_signing_alg
                &&& p.created_at_ms == row.created_at_ms
            },
            Err(e) => e == ProviderLookupError::Inconsistency && (spec_parse_scope(
                row.scope@,
            ) is None || spec_auth_method(row.token_endpoint_auth_method@) is None),
        },
{
    let scope = match parse_scope(row.scope.as_str()) {
        Some(ts) => ts,
        None => {
            return Err(ProviderLookupError::Inconsistency);
        },
    };
    let auth_method = match parse_auth_method(&row.token_endpoint_auth_method) {
        Some(m) => m,
        None => {
            return Err(ProviderLookupError::Inconsistency);
        },
    };
    Ok(
        UpstreamOAuthProvider {
            id: row.id,
            issuer: row.issuer,
            scope,
            client_id: row.client_id,
            encrypted_client_secret: row.encrypted_client_secret,
            token_endpoint_signing_alg: row.token_endpoint_signing_alg,
            token_endpoint_auth_method: auth_method,
            created_at_ms: row.created_at_ms,
        },
    )
}

} // verus!
