//! The identity of an API requester: anonymous, a cookie-held browser
//! session, or an OAuth2 session with its access token's user — and the
//! ownership/administration checks made against it.

use vstd::prelude::*;
use vstd::string::StringExecFns;

use crate::engine::string_list_contains;
use crate::ledger::TimeOrderedId;

verus! {

/// The user a session speaks for.
pub struct SessionUser {
    pub id: TimeOrderedId,
    pub username: String,
}

/// An authenticated browser session and its user.
pub struct BrowserSession {
    pub id: TimeOrderedId,
    pub user: SessionUser,
    pub created_at_ms: i64,
    pub finished_at_ms: Option<i64>,
}

/// An OAuth2 session: what the engine reads of it is its granted scope.
pub struct OAuth2Session {
    pub id: TimeOrderedId,
    /// The granted scope tokens.
    pub scope: Vec<String>,
}

/// The identity of the requester.
pub enum Requester {
    /// The requester presented no authentication information.
    Anonymous,
    /// The requester is a browser session, stored in a cookie.
    BrowserSession(BrowserSession),
    /// The requester is an OAuth2 session, with an access token.
    OAuth2Session(OAuth2Session, SessionUser),
}

/// An operation the requester may not perform.
#[derive(Clone, Copy, PartialEq, Eq, Structural, Debug)]
pub struct Unauthorized;

impl Unauthorized {
    /// A human-readable description of this error.
    pub fn message(&self) -> (r: &'static str)
        ensures
            r@ == "Unauthorized"@,
    {
        "Unauthorized"
    }
}

/// A requester is an administrator exactly when it is an OAuth2 session
/// whose scope carries the administration grant.
pub open spec fn spec_is_admin(r: Requester) -> bool {
    match r {
        Requester::OAuth2Session(s, _) => exists|i: int|
            0 <= i < s.scope@.len() && (#[trigger] s.scope@[i])@ == "urn:mas:admin"@,
        _ => false,
    }
}

/// The user a requester speaks for, if any.
pub open spec fn spec_user(r: Requester) -> Option<SessionUser> {
    match r {
        Requester::BrowserSession(session) => Some(session.user),
        Requester::OAuth2Session(_, user) => Some(user),
        Requester::Anonymous => None,
    }
}

impl Requester {
    /// The browser session behind the requester, if that is what it is.
    pub fn browser_session(&self) -> (r: Option<&BrowserSession>)
        ensures
            match r {
                Some(s) => self matches Requester::BrowserSession(s2) && s == s2,
                None => !(self matches Requester::BrowserSession(_)),
            },
    {
        match self {
            Requester::BrowserSession(session) => Some(session),
            Requester::OAuth2Session(_, _) | Requester::Anonymous => None,
        }
    }

    /// The user the requester speaks for, if any.
    pub fn user(&self) -> (r: Option<&SessionUser>)
        ensures
            match r {
                Some(u) => spec_user(*self) == Some(*u),
                None => spec_user(*self) is None,
            },
    {
        match self {
            Requester::BrowserSession(session) => Some(&session.user),
            Requester::OAuth2Session(_session, user) => Some(user),
            Requester::Anonymous => None,
        }
    }

    /// Whether the requester holds the administration grant.
    pub fn is_admin(&self) -> (r: bool)
        ensures
            r == spec_is_admin(*self),
    {
        proof {
            reveal_strlit("urn:mas:admin");
        }
        match self {
            Requester::OAuth2Session(session, _user) => {
                let grant = String::from_str("urn:mas:admin");
                string_list_contains(&session.scope, &grant)
            },
            Requester::BrowserSession(_) | Requester::Anonymous => false,
        }
    }

    /// An administrator may act on anyone; anyone else only on themselves.
    /// Fails for an anonymous requester and for another user's id.
    pub fn ensure_owner_or_admin(&self, user_id: TimeOrderedId) -> (r: Result<(), Unauthorized>)
        ensures
            r is Ok <==> spec_is_admin(*self) || (spec_user(*self) matches Some(u) && u.id
                == user_id),
    {
        if self.is_admin() {
            return Ok(());
        }
        match self.user() {
            Some(user) => {
                if user.id == user_id {
                    Ok(())
                } else {
                    Err(Unauthorized)
                }
            },
            None => Err(Unauthorized),
        }
    }
}

impl From<BrowserSession> for Requester {
    /// A browser session acts as itself.
    fn from(session: BrowserSession) -> (r: Self) {
        Requester::BrowserSession(session)
    }
}

impl vstd::std_specs::convert::FromSpecImpl<BrowserSession> for Requester {
    open spec fn obeys_from_spec() -> bool {
        true
    }

    open spec fn from_spec(session: BrowserSession) -> Self {
        Requester::BrowserSession(session)
    }
}

impl From<Option<BrowserSession>> for Requester {
    /// A missing session is anonymous.
    fn from(session: Option<BrowserSession>) -> (r: Self) {
        match session {
            Some(s) => Requester::BrowserSession(s),
            None => Requester::Anonymous,
        }
    }
}

impl vstd::std_specs::convert::FromSpecImpl<Option<BrowserSession>> for Requester {
    open spec fn obeys_from_spec() -> bool {
        true
    }

    open spec fn from_spec(session: Option<BrowserSession>) -> Self {
        match session {
            Some(s) => Requester::BrowserSession(s),
            None => Requester::Anonymous,
        }
    }
}

impl Default for Requester {
    /// No authentication information: anonymous.
    fn default() -> (r: Self)
        ensures
            r == Requester::Anonymous,
    {
        Requester::Anonymous
    }
}

} // verus!
