//! Users, their sessions, and the login/re-authentication decisions: which
//! failure a caller sees, and how a session record changes when the user
//! proves who they are or signs out. The persistence around these decisions
//! is the caller's, inside one transaction per operation.

use vstd::prelude::*;
use vstd::string::StringExecFns;

verus! {

/// A registered user.
pub struct User {
    pub id: i64,
    pub username: String,
}

impl User {
    /// The record a successful registration yields.
    pub fn new(id: i64, username: String) -> (r: Self)
        ensures
            r.id == id,
            r.username == username,
    {
        User { id, username }
    }
}

/// A user session as the login subsystem sees it.
pub struct SessionInfo {
    pub id: i64,
    pub user_id: i64,
    pub username: String,
    pub active: bool,
    pub created_at_ms: i64,
    pub last_authd_at_ms: Option<i64>,
}

impl SessionInfo {
    /// The session's lookup key.
    pub fn key(&self) -> (r: i64)
        ensures
            r == self.id,
    {
        self.id
    }

    /// The session after a successful re-authentication at `authd_at_ms`:
    /// only the last-authentication instant moves.
    pub fn reauth(self, authd_at_ms: i64) -> (r: Self)
        ensures
            r.last_authd_at_ms == Some(authd_at_ms),
            r.id == self.id,
            r.user_id == self.user_id,
            r.username == self.username,
            r.active == self.active,
            r.created_at_ms == self.created_at_ms,
    {
        let mut s = self;
        s.last_authd_at_ms = Some(authd_at_ms);
        s
    }

    /// The session after it is ended: inactive, everything else unchanged.
    pub fn end(self) -> (r: Self)
        ensures
            !r.active,
            r.id == self.id,
            r.user_id == self.user_id,
            r.username == self.username,
            r.created_at_ms == self.created_at_ms,
            r.last_authd_at_ms == self.last_authd_at_ms,
    {
        let mut s = self;
        s.active = false;
        s
    }
}

/// The record a freshly started session holds: active, tied to the user,
/// not yet authenticated.
pub fn start_session(user: User, id: i64, created_at_ms: i64) -> (r: SessionInfo)
    ensures
        r.id == id,
        r.user_id == user.id,
        r.username == user.username,
        r.active,
        r.created_at_ms == created_at_ms,
        r.last_authd_at_ms is None,
{
    SessionInfo {
        id,
        user_id: user.id,
        username: user.username,
        active: true,
        created_at_ms,
        last_authd_at_ms: None,
    }
}

/// Whether this password matches this password hash, as argon2 judges it; a
/// malformed hash never matches.
pub uninterp spec fn password_verifies(hashed: Seq<char>, password: Seq<char>) -> bool;

/// Relies on `password_hash::PasswordHash::new` and `verify_password` with
/// the argon2 algorithm: deterministic in the hash string and the password.
#[verifier::external_body]
pub fn argon2_verify(hashed_password: &String, password: &String) -> (r: bool)
    ensures
        r == password_verifies(hashed_password@, password@),
{
    let context = argon2::Argon2::default();
    match password_hash::PasswordHash::new(hashed_password.as_str()) {
        Ok(hash) => hash.verify_password(&[&context], password.as_str()).is_ok(),
        Err(_) => false,
    }
}

/// Why a session could not be authenticated.
#[derive(Clone, Copy, PartialEq, Eq, Structural, Debug)]
pub enum AuthenticationError {
    /// The password does not verify against the stored hash.
    Password,
    /// The stored hash could not be fetched.
    Fetch,
    /// The authentication record could not be saved.
    Save,
    /// The verification task failed to run.
    Internal,
}

/// Verify a password against the stored hash: the decision at the heart of
/// `authenticate_session`. The caller fetches the hash before and records
/// the authentication instant after, in the same transaction.
pub fn check_password(hashed_password: &String, password: &String) -> (r: Result<
    (),
    AuthenticationError,
>)
    ensures
        r is Ok <==> password_verifies(hashed_password@, password@),
        r matches Err(e) ==> e == AuthenticationError::Password,
{
    if argon2_verify(hashed_password, password) {
        Ok(())
    } else {
        Err(AuthenticationError::Password)
    }
}

/// Why a login failed.
pub enum LoginError {
    /// No user carries this username.
    NotFound { username: String },
    /// The user exists, but did not authenticate.
    Authentication { username: String },
    /// Anything else, with its description.
    Other { message: String },
}

impl LoginError {
    /// The message shown on the login page for this failure.
    pub fn html_display(&self) -> (r: String)
        ensures
            match self {
                LoginError::NotFound { .. } => r@ == "Could not find user"@,
                LoginError::Authentication { .. } => r@ == "Failed to authenticate user"@,
                LoginError::Other { message } => r@ == "Internal error: <pre>"@ + message@
                    + "</pre>"@,
            },
    {
        match self {
            LoginError::NotFound { .. } => String::from_str("Could not find user"),
            LoginError::Authentication { .. } => String::from_str("Failed to authenticate user"),
            LoginError::Other { message } => {
                let mut r = String::from_str("Internal error: <pre>");
                r.append(message.as_str());
                r.append("</pre>");
                r
            },
        }
    }
}

/// The login failure when the user lookup failed: "not found" when no row
/// carried the username, otherwise an internal failure with the underlying
/// description.
pub fn login_lookup_error(username: &String, row_not_found: bool, source_message: String) -> (r:
    LoginError)
    ensures
        row_not_found ==> (r matches LoginError::NotFound { username: u } && u@ == username@),
        !row_not_found ==> (r matches LoginError::Other { message } && message == source_message),
{
    if row_not_found {
        LoginError::NotFound { username: username.clone() }
    } else {
        LoginError::Other { message: source_message }
    }
}

/// The login failure when authenticating the fresh session failed: an
/// authentication failure when the password was wrong, otherwise an internal
/// failure with the underlying description.
pub fn login_auth_error(username: &String, e: AuthenticationError, source_message: String) -> (r:
    LoginError)
    ensures
        e == AuthenticationError::Password ==> (r matches LoginError::Authentication {
            username: u,
        } && u@ == username@),
        e != AuthenticationError::Password ==> (r matches LoginError::Other { message } && message
            == source_message),
{
    match e {
        AuthenticationError::Password => LoginError::Authentication {
            username: username.clone(),
        },
        _ => LoginError::Other { message: source_message },
    }
}

/// Ending a session must deactivate exactly one row.
#[derive(Clone, Copy, PartialEq, Eq, Structural, Debug)]
pub enum EndSessionError {
    /// No row was deactivated: the session does not exist.
    NoRowAffected,
    /// More than one row was deactivated: the store is inconsistent.
    TooManyRowsAffected,
}

/// Judge the row count an end-session update reported.
pub fn end_session_check(rows_affected: u64) -> (r: Result<(), EndSessionError>)
    ensures
        rows_affected == 1 <==> r is Ok,
        rows_affected == 0 <==> r == Err::<(), EndSessionError>(EndSessionError::NoRowAffected),
        rows_affected > 1 <==> r == Err::<(), EndSessionError>(
            EndSessionError::TooManyRowsAffected,
        ),
{
    if rows_affected == 1 {
        Ok(())
    } else if rows_affected == 0 {
        Err(EndSessionError::NoRowAffected)
    } else {
        Err(EndSessionError::TooManyRowsAffected)
    }
}

} // verus!
