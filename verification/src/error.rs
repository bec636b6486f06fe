//! The error classifications that every public operation of the engine
//! reports to its caller.
use vstd::prelude::*;

verus! {

/// One specific classification per failure mode of the engine.
///
/// `RemoteError` wraps the message of any remote failure that does not fall
/// under a more specific classification.
#[derive(Debug, PartialEq, Eq)]
pub enum SgError {
    /// The account name is not present in the store.
    UnknownAccount,
    /// The account has no token pair, so it cannot be used for
    /// confirmation operations.
    NotLoggedIn,
    /// The remote service rate-limited the login; terminal, never retried.
    TooManyAttempts,
    /// The credentials were rejected; terminal.
    BadCredentials,
    /// The login session expired; terminal.
    SessionExpired,
    /// The challenge kind submitted was not valid for this session.
    InvalidGuardType,
    /// No supported challenge method was offered by the remote service.
    LoginNotSupported,
    /// The token pair could not be refreshed; the tokens were cleared and a
    /// fresh login is required.
    SessionInvalidated,
    /// The identifier is not in the account's cached confirmation sequence.
    ConfirmationNotFound,
    /// Any other transport or protocol failure, with its message.
    RemoteError(String),
}

} // verus!
