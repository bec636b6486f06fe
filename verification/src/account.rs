//! An account: an identity with long-lived secrets and an optional current
//! session token pair.
use vstd::prelude::*;

verus! {

/// The bearer tokens of a live session: an access token and the refresh
/// token that can replace it when it goes stale.
#[derive(Debug, PartialEq, Eq)]
pub struct TokenPair {
    pub access_token: String,
    pub refresh_token: String,
}

impl TokenPair {
    /// Pairs the two tokens of a persisted record; a pair exists only when
    /// both tokens are present.
    pub fn from_options(access: Option<String>, refresh: Option<String>) -> (r: Option<TokenPair>)
        ensures
            r is Some <==> (access is Some && refresh is Some),
            r matches Some(t) ==> t.access_token == access.unwrap()
                && t.refresh_token == refresh.unwrap(),
    {
        match (access, refresh) {
            (Some(a), Some(rf)) => Some(TokenPair { access_token: a, refresh_token: rf }),
            _ => None,
        }
    }

}

/// A registered identity: its name, its remote numeric identifier, its
/// write-once secrets, and the mutable token pair of the current session.
pub struct Account {
    pub account_name: String,
    pub steam_id: u64,
    pub serial_number: String,
    pub revocation_code: String,
    /// The decoded shared secret the code generator works from.
    pub shared_secret: Vec<u8>,
    pub token_gid: String,
    pub identity_secret: String,
    pub uri: String,
    pub device_id: String,
    pub secret_1: String,
    pub tokens: Option<TokenPair>,
}

/// The same account with its token pair replaced; every secret is kept.
pub open spec fn with_tokens(a: Account, t: Option<TokenPair>) -> Account {
    Account { tokens: t, ..a }
}

impl Account {
    /// A shared secret always holds exactly the twenty bytes the code
    /// generator expects.
    pub open spec fn wf(self) -> bool {
        self.shared_secret@.len() == 20
    }

    /// An account with no token pair is logged out.
    pub open spec fn logged_in(self) -> bool {
        self.tokens is Some
    }

    /// Whether the account currently holds a token pair.
    pub fn is_logged_in(&self) -> (r: bool)
        ensures
            r == self.logged_in(),
    {
        match &self.tokens {
            Some(_) => true,
            None => false,
        }
    }
}

} // verus!
