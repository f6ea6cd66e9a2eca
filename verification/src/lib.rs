//! Verified core of an OAuth2/OIDC authorization server: the engine that
//! drives an authorization request from validation through
//! (re-)authentication gating to redirect-based code/token delivery, and the
//! client-held upstream-session ledger that survives the round trip to an
//! external identity provider.
//!
//! The pieces, leaf first:
//! - [`response_mode`]: which response mode a response-type set mandates;
//! - [`urlencode`]: the percent-encoded `k=v&k=v` wire codec;
//! - [`url_parts`]: redirect targets split into base, query and fragment;
//! - [`dispatch`]: merging a response parameter bag into a redirect target;
//! - [`ledger`]: the append-only ledger of pending upstream linking attempts,
//!   with lazy expiry and single-use link consumption;
//! - [`engine`]: the authorization-session state machine itself;
//! - [`errors`]: whether a failure may be redirected back to the client;
//! - [`scope`], [`provider`], [`requester`], [`user`], [`csrf`], [`iden`]:
//!   the grammar, records and decisions around the flow.
//!
//! Storage, clocks and transports stay outside: every function takes the
//! instants and records it needs as values and returns the updated values,
//! so a caller can scope each mutation to one transaction.

pub mod csrf;
pub mod dispatch;
pub mod engine;
pub mod entropy;
pub mod errors;
pub mod iden;
pub mod ledger;
pub mod provider;
pub mod requester;
pub mod response_mode;
pub mod scope;
pub mod strutil;
pub mod url_parts;
pub mod urlencode;
pub mod user;
