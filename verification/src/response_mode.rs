//! Response-mode resolution: given the requested response types and an
//! optional client-suggested response mode, decide the mode that the
//! authorization response must use, or reject an illegal combination.

use vstd::prelude::*;

verus! {

/// The set of OAuth2 response types requested by the client:
/// a subset of `{code, token, id_token}`.
#[derive(Clone, Copy, PartialEq, Eq, Structural, Debug)]
pub struct ResponseTypeSet {
    pub code: bool,
    pub token: bool,
    pub id_token: bool,
}

/// How result parameters are returned to the client.
#[derive(Clone, Copy, PartialEq, Eq, Structural, Debug)]
pub enum ResponseMode {
    Query,
    Fragment,
    FormPost,
}

/// Rejection of an illegal response-type / response-mode combination.
#[derive(Clone, Copy, PartialEq, Eq, Structural, Debug)]
pub struct InvalidResponseMode;

impl ResponseTypeSet {
    /// A set is "implicit-style" when it asks for tokens to be delivered on
    /// the redirect itself; such responses must never travel in a query
    /// string, where they would end up in server logs and referrer headers.
    pub open spec fn spec_implicit(self) -> bool {
        self.token || self.id_token
    }

    /// Executable counterpart of [`Self::spec_implicit`].
    pub fn implicit(&self) -> (r: bool)
        ensures
            r == self.spec_implicit(),
    {
        self.token || self.id_token
    }
}

/// The mode mandated for a response-type set and an optional suggestion:
/// implicit-style sets default to `fragment` and refuse `query`; all other
/// sets take the suggestion as-is and default to `query`.
pub open spec fn resolved_mode(
    rt: ResponseTypeSet,
    suggested: Option<ResponseMode>,
) -> Result<ResponseMode, InvalidResponseMode> {
    if rt.spec_implicit() {
        match suggested {
            None => Ok(ResponseMode::Fragment),
            Some(ResponseMode::Query) => Err(InvalidResponseMode),
            Some(m) => Ok(m),
        }
    } else {
        match suggested {
            None => Ok(ResponseMode::Query),
            Some(m) => Ok(m),
        }
    }
}

/// Given the requested response types and an optional client-suggested
/// response mode, return the mode that must be used, and reject the
/// suggestion when it is not allowed for those response types.
pub fn resolve_response_mode(
    response_type: &ResponseTypeSet,
    suggested_response_mode: Option<ResponseMode>,
) -> (r: Result<ResponseMode, InvalidResponseMode>)
    ensures
        r == resolved_mode(*response_type, suggested_response_mode),
{
    if response_type.implicit() {
        match suggested_response_mode {
            None => Ok(ResponseMode::Fragment),
            Some(ResponseMode::Query) => Err(InvalidResponseMode),
            Some(mode) => Ok(mode),
        }
    } else {
        match suggested_response_mode {
            None => Ok(ResponseMode::Query),
            Some(mode) => Ok(mode),
        }
    }
}

/// Law: for every response-type set containing `token` or `id_token`, the
/// resolved mode is never `query`, and an explicit `query` suggestion is
/// rejected.
pub proof fn lemma_implicit_never_query(rt: ResponseTypeSet, suggested: Option<ResponseMode>)
    requires
        rt.spec_implicit(),
    ensures
        !(resolved_mode(rt, suggested) matches Ok(m) && m == ResponseMode::Query),
        suggested == Some(ResponseMode::Query) ==> resolved_mode(rt, suggested) is Err,
{
}

/// Law: for every response-type set containing neither `token` nor
/// `id_token`, resolution always succeeds, with the suggested mode when one
/// was given and `query` otherwise.
pub proof fn lemma_non_implicit_takes_suggestion(
    rt: ResponseTypeSet,
    suggested: Option<ResponseMode>,
)
    requires
        !rt.spec_implicit(),
    ensures
        resolved_mode(rt, suggested) == Ok::<ResponseMode, InvalidResponseMode>(
            suggested.unwrap_or(ResponseMode::Query),
        ),
{
}

} // verus!
