//! The time-based device code, named after the outside generator that
//! computes it.
use vstd::prelude::*;

verus! {

/// The five-character device code derived from a shared secret and a moment
/// in time. The generator is deterministic, so the code is a function of its
/// two arguments; which characters it holds on given values is not stated.
pub uninterp spec fn code_of(secret: Seq<u8>, time: u64) -> Seq<char>;

/// Relies on steamguard's `TwoFactorSecret::generate_code`: a five-character
/// code computed from the secret bytes and the time alone.
/// `TwoFactorSecret::from_bytes` only converts the bytes and panics unless
/// exactly twenty are given, hence the length premise.
#[verifier::external_body]
pub(crate) fn totp_code(secret: &Vec<u8>, time: u64) -> (r: String)
    requires
        secret@.len() == 20,
    ensures
        r@ == code_of(secret@, time),
        r@.len() == 5,
{
    steamguard::token::TwoFactorSecret::from_bytes(secret.clone()).generate_code(time)
}

} // verus!
