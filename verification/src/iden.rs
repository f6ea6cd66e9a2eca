//! Table and column identifiers of the persistence schema. Each identifier
//! renders to the snake-case name used in SQL.

use vstd::prelude::*;

verus! {

/// The `user_sessions` table.
#[derive(Clone, Copy, PartialEq, Eq, Structural, Debug)]
pub enum UserSessions {
    Table,
    UserSessionId,
    CreatedAt,
    FinishedAt,
    UserId,
}

impl UserSessions {
    /// The identifier as it appears unquoted in SQL.
    pub fn unquoted(&self) -> (r: &'static str)
        ensures
            match self {
                UserSessions::Table => r@ == "user_sessions"@,
                UserSessions::UserSessionId => r@ == "user_session_id"@,
                UserSessions::CreatedAt => r@ == "created_at"@,
                UserSessions::FinishedAt => r@ == "finished_at"@,
                UserSessions::UserId => r@ == "user_id"@,
            },
    {
        match self {
            UserSessions::Table => "user_sessions",
            UserSessions::UserSessionId => "user_session_id",
            UserSessions::CreatedAt => "created_at",
            UserSessions::FinishedAt => "finished_at",
            UserSessions::UserId => "user_id",
        }
    }
}

/// The `users` table.
#[derive(Clone, Copy, PartialEq, Eq, Structural, Debug)]
pub enum Users {
    Table,
    UserId,
    Username,
    PrimaryUserEmailId,
}

impl Users {
    /// The identifier as it appears unquoted in SQL.
    pub fn unquoted(&self) -> (r: &'static str)
        ensures
            match self {
                Users::Table => r@ == "users"@,
                Users::UserId => r@ == "user_id"@,
                Users::Username => r@ == "username"@,
                Users::PrimaryUserEmailId => r@ == "primary_user_email_id"@,
            },
    {
        match self {
            Users::Table => "users",
            Users::UserId => "user_id",
            Users::Username => "username",
            Users::PrimaryUserEmailId => "primary_user_email_id",
        }
    }
}

/// The `user_emails` table.
#[derive(Clone, Copy, PartialEq, Eq, Structural, Debug)]
pub enum UserEmails {
    Table,
    UserEmailId,
    UserId,
    Email,
    CreatedAt,
    ConfirmedAt,
}

impl UserEmails {
    /// The identifier as it appears unquoted in SQL.
    pub fn unquoted(&self) -> (r: &'static str)
        ensures
            match self {
                UserEmails::Table => r@ == "user_emails"@,
                UserEmails::UserEmailId => r@ == "user_email_id"@,
                UserEmails::UserId => r@ == "user_id"@,
                UserEmails::Email => r@ == "email"@,
                UserEmails::CreatedAt => r@ == "created_at"@,
                UserEmails::ConfirmedAt => r@ == "confirmed_at"@,
            },
    {
        match self {
            UserEmails::Table => "user_emails",
            UserEmails::UserEmailId => "user_email_id",
            UserEmails::UserId => "user_id",
            UserEmails::Email => "email",
            UserEmails::CreatedAt => "created_at",
            UserEmails::ConfirmedAt => "confirmed_at",
        }
    }
}

/// The `compat_sessions` table.
#[derive(Clone, Copy, PartialEq, Eq, Structural, Debug)]
pub enum CompatSessions {
    Table,
    CompatSessionId,
    UserId,
    DeviceId,
    CreatedAt,
    FinishedAt,
    IsSynapseAdmin,
}

impl CompatSessions {
    /// The identifier as it appears unquoted in SQL.
    pub fn unquoted(&self) -> (r: &'static str)
        ensures
            match self {
                CompatSessions::Table => r@ == "compat_sessions"@,
                CompatSessions::CompatSessionId => r@ == "compat_session_id"@,
                CompatSessions::UserId => r@ == "user_id"@,
                CompatSessions::DeviceId => r@ == "device_id"@,
                CompatSessions::CreatedAt => r@ == "created_at"@,
                CompatSessions::FinishedAt => r@ == "finished_at"@,
                CompatSessions::IsSynapseAdmin => r@ == "is_synapse_admin"@,
            },
    {
        match self {
            CompatSessions::Table => "compat_sessions",
            CompatSessions::CompatSessionId => "compat_session_id",
            CompatSessions::UserId => "user_id",
            CompatSessions::DeviceId => "device_id",
            CompatSessions::CreatedAt => "created_at",
            CompatSessions::FinishedAt => "finished_at",
            CompatSessions::IsSynapseAdmin => "is_synapse_admin",
        }
    }
}

/// The `compat_sso_logins` table.
#[derive(Clone, Copy, PartialEq, Eq, Structural, Debug)]
pub enum CompatSsoLogins {
    Table,
    CompatSsoLoginId,
    RedirectUri,
    LoginToken,
    CompatSessionId,
    CreatedAt,
    FulfilledAt,
    ExchangedAt,
}

impl CompatSsoLogins {
    /// The identifier as it appears unquoted in SQL.
    pub fn unquoted(&self) -> (r: &'static str)
        ensures
            match self {
                CompatSsoLogins::Table => r@ == "compat_sso_logins"@,
                CompatSsoLogins::CompatSsoLoginId => r@ == "compat_sso_login_id"@,
                CompatSsoLogins::RedirectUri => r@ == "redirect_uri"@,
                CompatSsoLogins::LoginToken => r@ == "login_token"@,
                CompatSsoLogins::CompatSessionId => r@ == "compat_session_id"@,
                CompatSsoLogins::CreatedAt => r@ == "created_at"@,
                CompatSsoLogins::FulfilledAt => r@ == "fulfilled_at"@,
                CompatSsoLogins::ExchangedAt => r@ == "exchanged_at"@,
            },
    {
        match self {
            CompatSsoLogins::Table => "compat_sso_logins",
            CompatSsoLogins::CompatSsoLoginId => "compat_sso_login_id",
            CompatSsoLogins::RedirectUri => "redirect_uri",
            CompatSsoLogins::LoginToken => "login_token",
            CompatSsoLogins::CompatSessionId => "compat_session_id",
            CompatSsoLogins::CreatedAt => "created_at",
            CompatSsoLogins::FulfilledAt => "fulfilled_at",
            CompatSsoLogins::ExchangedAt => "exchanged_at",
        }
    }
}

/// The `oauth2_sessions` table.
#[derive(Clone, Copy, PartialEq, Eq, Structural, Debug)]
pub enum OAuth2Sessions {
    Table,
    OAuth2SessionId,
    UserSessionId,
    OAuth2ClientId,
    Scope,
    CreatedAt,
    FinishedAt,
}

impl OAuth2Sessions {
    /// The identifier as it appears unquoted in SQL.
    pub fn unquoted(&self) -> (r: &'static str)
        ensures
            match self {
                OAuth2Sessions::Table => r@ == "oauth2_sessions"@,
                OAuth2Sessions::OAuth2SessionId => r@ == "oauth2_session_id"@,
                OAuth2Sessions::UserSessionId => r@ == "user_session_id"@,
                OAuth2Sessions::OAuth2ClientId => r@ == "oauth2_client_id"@,
                OAuth2Sessions::Scope => r@ == "scope"@,
                OAuth2Sessions::CreatedAt => r@ == "created_at"@,
                OAuth2Sessions::FinishedAt => r@ == "finished_at"@,
            },
    {
        match self {
            OAuth2Sessions::Table => "oauth2_sessions",
            OAuth2Sessions::OAuth2SessionId => "oauth2_session_id",
            OAuth2Sessions::UserSessionId => "user_session_id",
            OAuth2Sessions::OAuth2ClientId => "oauth2_client_id",
            OAuth2Sessions::Scope => "scope",
            OAuth2Sessions::CreatedAt => "created_at",
            OAuth2Sessions::FinishedAt => "finished_at",
        }
    }
}

/// The `upstream_oauth_providers` table.
#[derive(Clone, Copy, PartialEq, Eq, Structural, Debug)]
pub enum UpstreamOAuthProviders {
    Table,
    UpstreamOAuthProviderId,
    Issuer,
    Scope,
    ClientId,
    EncryptedClientSecret,
    TokenEndpointSigningAlg,
    TokenEndpointAuthMethod,
    CreatedAt,
    ClaimsImports,
}

impl UpstreamOAuthProviders {
    /// The identifier as it appears unquoted in SQL.
    pub fn unquoted(&self) -> (r: &'static str)
        ensures
            match self {
                UpstreamOAuthProviders::Table => r@ == "upstream_oauth_providers"@,
                UpstreamOAuthProviders::UpstreamOAuthProviderId => r@
                    == "upstream_oauth_provider_id"@,
                UpstreamOAuthProviders::Issuer => r@ == "issuer"@,
                UpstreamOAuthProviders::Scope => r@ == "scope"@,
                UpstreamOAuthProviders::ClientId => r@ == "client_id"@,
                UpstreamOAuthProviders::EncryptedClientSecret => r@ == "encrypted_client_secret"@,
                UpstreamOAuthProviders::TokenEndpointSigningAlg => r@
                    == "token_endpoint_signing_alg"@,
                UpstreamOAuthProviders::TokenEndpointAuthMethod => r@
                    == "token_endpoint_auth_method"@,
                UpstreamOAuthProviders::CreatedAt => r@ == "created_at"@,
                UpstreamOAuthProviders::ClaimsImports => r@ == "claims_imports"@,
            },
    {
        match self {
            UpstreamOAuthProviders::Table => "upstream_oauth_providers",
            UpstreamOAuthProviders::UpstreamOAuthProviderId => "upstream_oauth_provider_id",
            UpstreamOAuthProviders::Issuer => "issuer",
            UpstreamOAuthProviders::Scope => "scope",
            UpstreamOAuthProviders::ClientId => "client_id",
            UpstreamOAuthProviders::EncryptedClientSecret => "encrypted_client_secret",
            UpstreamOAuthProviders::TokenEndpointSigningAlg => "token_endpoint_signing_alg",
            UpstreamOAuthProviders::TokenEndpointAuthMethod => "token_endpoint_auth_method",
            UpstreamOAuthProviders::CreatedAt => "created_at",
            UpstreamOAuthProviders::ClaimsImports => "claims_imports",
        }
    }
}

/// The `upstream_oauth_links` table.
#[derive(Clone, Copy, PartialEq, Eq, Structural, Debug)]
pub enum UpstreamOAuthLinks {
    Table,
    UpstreamOAuthLinkId,
    UpstreamOAuthProviderId,
    UserId,
    Subject,
    CreatedAt,
}

impl UpstreamOAuthLinks {
    /// The identifier as it appears unquoted in SQL.
    pub fn unquoted(&self) -> (r: &'static str)
        ensures
            match self {
                UpstreamOAuthLinks::Table => r@ == "upstream_oauth_links"@,
                UpstreamOAuthLinks::UpstreamOAuthLinkId => r@ == "upstream_oauth_link_id"@,
                UpstreamOAuthLinks::UpstreamOAuthProviderId => r@
                    == "upstream_oauth_provider_id"@,
                UpstreamOAuthLinks::UserId => r@ == "user_id"@,
                UpstreamOAuthLinks::Subject => r@ == "subject"@,
                UpstreamOAuthLinks::CreatedAt => r@ == "created_at"@,
            },
    {
        match self {
            UpstreamOAuthLinks::Table => "upstream_oauth_links",
            UpstreamOAuthLinks::UpstreamOAuthLinkId => "upstream_oauth_link_id",
            UpstreamOAuthLinks::UpstreamOAuthProviderId => "upstream_oauth_provider_id",
            UpstreamOAuthLinks::UserId => "user_id",
            UpstreamOAuthLinks::Subject => "subject",
            UpstreamOAuthLinks::CreatedAt => "created_at",
        }
    }
}

} // verus!
