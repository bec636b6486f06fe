//! The multi-step login state machine: credentials, then a bounded
//! guard-code challenge loop, then polling for tokens. The state names the
//! next move; each remote outcome is fed back in as an event.
use vstd::prelude::*;
use crate::account::TokenPair;
use crate::error::SgError;

verus! {

/// The challenge loop submits at most this many codes.
pub const MAX_CODE_ATTEMPTS: u8 = 3;

/// A challenge kind the remote service advertises; only the time-based
/// device-code kind is supported here, every other kind is skipped.
#[derive(Clone, Copy, PartialEq, Eq, Structural)]
pub enum GuardKind {
    DeviceCode,
    Other(i32),
}

/// How a credential submission failed.
pub enum CredFailure {
    TooManyAttempts,
    BadCredentials,
    SessionExpired,
    Other(String),
}

/// How a guard-code submission failed.
pub enum ChallengeFailure {
    TooManyAttempts,
    SessionExpired,
    InvalidGuardType,
    Other(String),
}

/// What the remote service reported back for one step of a login attempt.
pub enum LoginEvent {
    CredentialsAccepted(Vec<GuardKind>),
    CredentialsRejected(CredFailure),
    CodeAccepted,
    CodeRejected(ChallengeFailure),
    TokensIssued(TokenPair),
    PollFailed(String),
}

/// Where one login attempt stands. Each non-terminal state names the next
/// move: submit the credentials, submit a freshly generated code, or poll.
/// `Challenging` counts the code submissions already answered.
#[derive(Debug, PartialEq, Eq)]
pub enum LoginState {
    AwaitingCredentials,
    Challenging(u8),
    Polling,
    Succeeded(TokenPair),
    Failed(SgError),
}

/// The error a failed credential submission surfaces: the three terminal
/// classifications pass through, anything else is a remote error.
pub open spec fn cred_failure_error(f: CredFailure) -> SgError {
    match f {
        CredFailure::TooManyAttempts => SgError::TooManyAttempts,
        CredFailure::BadCredentials => SgError::BadCredentials,
        CredFailure::SessionExpired => SgError::SessionExpired,
        CredFailure::Other(m) => SgError::RemoteError(m),
    }
}

/// Whether this rejection ends the whole login at once, not just this code.
pub open spec fn challenge_terminal(f: ChallengeFailure) -> bool {
    match f {
        ChallengeFailure::TooManyAttempts => true,
        ChallengeFailure::SessionExpired => true,
        ChallengeFailure::InvalidGuardType => true,
        ChallengeFailure::Other(_) => false,
    }
}

/// The error a rejected guard code surfaces.
pub open spec fn challenge_failure_error(f: ChallengeFailure) -> SgError {
    match f {
        ChallengeFailure::TooManyAttempts => SgError::TooManyAttempts,
        ChallengeFailure::SessionExpired => SgError::SessionExpired,
        ChallengeFailure::InvalidGuardType => SgError::InvalidGuardType,
        ChallengeFailure::Other(m) => SgError::RemoteError(m),
    }
}

/// Whether any advertised method is the device-code challenge.
pub open spec fn has_device_code(ms: Seq<GuardKind>) -> bool {
    exists|i: int| 0 <= i < ms.len() && ms[i] == GuardKind::DeviceCode
}

/// The transition relation of the login state machine. An event that does
/// not belong to the current state leaves the state as it is.
pub open spec fn login_next(s: LoginState, e: LoginEvent) -> LoginState {
    match (s, e) {
        (LoginState::AwaitingCredentials, LoginEvent::CredentialsAccepted(ms)) => if has_device_code(
            ms@,
        ) {
            LoginState::Challenging(0)
        } else {
            LoginState::Failed(SgError::LoginNotSupported)
        },
        (LoginState::AwaitingCredentials, LoginEvent::CredentialsRejected(f)) => LoginState::Failed(
            cred_failure_error(f),
        ),
        (LoginState::Challenging(_), LoginEvent::CodeAccepted) => LoginState::Polling,
        (LoginState::Challenging(a), LoginEvent::CodeRejected(f)) => if challenge_terminal(f) {
            LoginState::Failed(challenge_failure_error(f))
        } else if a + 1 >= MAX_CODE_ATTEMPTS {
            LoginState::Failed(challenge_failure_error(f))
        } else {
            LoginState::Challenging((a + 1) as u8)
        },
        (LoginState::Polling, LoginEvent::TokensIssued(t)) => LoginState::Succeeded(t),
        (LoginState::Polling, LoginEvent::PollFailed(m)) => LoginState::Failed(
            SgError::RemoteError(m),
        ),
        (s2, _) => s2,
    }
}

/// Whether any advertised method is the device-code challenge.
fn contains_device_code(ms: &Vec<GuardKind>) -> (r: bool)
    ensures
        r == has_device_code(ms@),
{
    let n = ms.len();
    let mut i: usize = 0;
    while i < n
        invariant
            i <= n,
            n == ms@.len(),
            forall|j: int| 0 <= j < i ==> ms@[j] != GuardKind::DeviceCode,
        decreases n - i,
    {
        match ms[i] {
            GuardKind::DeviceCode => {
                proof {
                    assert(ms@[i as int] == GuardKind::DeviceCode);
                }
                return true;
            },
            GuardKind::Other(_) => {
                i = i + 1;
            },
        }
    }
    false
}

/// The error a failed credential submission surfaces.
fn cred_error(f: CredFailure) -> (r: SgError)
    ensures
        r == cred_failure_error(f),
{
    match f {
        CredFailure::TooManyAttempts => SgError::TooManyAttempts,
        CredFailure::BadCredentials => SgError::BadCredentials,
        CredFailure::SessionExpired => SgError::SessionExpired,
        CredFailure::Other(m) => SgError::RemoteError(m),
    }
}

/// The error a rejected guard code surfaces.
fn challenge_error(f: ChallengeFailure) -> (r: SgError)
    ensures
        r == challenge_failure_error(f),
{
    match f {
        ChallengeFailure::TooManyAttempts => SgError::TooManyAttempts,
        ChallengeFailure::SessionExpired => SgError::SessionExpired,
        ChallengeFailure::InvalidGuardType => SgError::InvalidGuardType,
        ChallengeFailure::Other(m) => SgError::RemoteError(m),
    }
}

/// One step of the login state machine.
pub fn login_step(state: LoginState, event: LoginEvent) -> (next: LoginState)
    ensures
        next == login_next(state, event),
{
    match (state, event) {
        (LoginState::AwaitingCredentials, LoginEvent::CredentialsAccepted(ms)) => {
            if contains_device_code(&ms) {
                LoginState::Challenging(0)
            } else {
                LoginState::Failed(SgError::LoginNotSupported)
            }
        },
        (LoginState::AwaitingCredentials, LoginEvent::CredentialsRejected(f)) => LoginState::Failed(
            cred_error(f),
        ),
        (LoginState::Challenging(_), LoginEvent::CodeAccepted) => LoginState::Polling,
        (LoginState::Challenging(a), LoginEvent::CodeRejected(f)) => {
            let terminal = match &f {
                ChallengeFailure::TooManyAttempts => true,
                ChallengeFailure::SessionExpired => true,
                ChallengeFailure::InvalidGuardType => true,
                ChallengeFailure::Other(_) => false,
            };
            if terminal {
                LoginState::Failed(challenge_error(f))
            } else if a >= MAX_CODE_ATTEMPTS - 1 {
                LoginState::Failed(challenge_error(f))
            } else {
                LoginState::Challenging(a + 1)
            }
        },
        (LoginState::Polling, LoginEvent::TokensIssued(t)) => LoginState::Succeeded(t),
        (LoginState::Polling, LoginEvent::PollFailed(m)) => LoginState::Failed(
            SgError::RemoteError(m),
        ),
        (s2, _) => s2,
    }
}

/// The state after a whole sequence of events, first event first.
pub open spec fn login_run(s: LoginState, evs: Seq<LoginEvent>) -> LoginState
    decreases evs.len(),
{
    if evs.len() == 0 {
        s
    } else {
        login_run(login_next(s, evs[0]), evs.drop_first())
    }
}

/// A finished attempt is stable: no later event moves it anywhere.
pub proof fn lemma_terminal_states_stable(s: LoginState, evs: Seq<LoginEvent>)
    requires
        s matches LoginState::Succeeded(_) || s matches LoginState::Failed(_),
    ensures
        login_run(s, evs) == s,
    decreases evs.len(),
{
    if evs.len() > 0 {
        lemma_terminal_states_stable(s, evs.drop_first());
    }
}

/// Whether the event is a code rejection that does not end the login by
/// itself (a mismatched code, say, from clock skew).
pub open spec fn soft_rejection(e: LoginEvent) -> bool {
    e matches LoginEvent::CodeRejected(f) && !challenge_terminal(f)
}

/// The bounded challenge loop: from `a` answered submissions, fewer than
/// `MAX_CODE_ATTEMPTS - a` further soft rejections leave the attempt in the
/// challenge loop with each submission counted; as soon as the total
/// reaches `MAX_CODE_ATTEMPTS`, the attempt fails with that rejection's
/// error, and no later event changes that.
pub proof fn lemma_challenge_rejections(a: u8, evs: Seq<LoginEvent>)
    requires
        a < MAX_CODE_ATTEMPTS,
        forall|k: int| 0 <= k < evs.len() ==> soft_rejection(#[trigger] evs[k]),
    ensures
        evs.len() < MAX_CODE_ATTEMPTS - a ==> login_run(LoginState::Challenging(a), evs)
            == LoginState::Challenging((a + evs.len()) as u8),
        evs.len() >= MAX_CODE_ATTEMPTS - a ==> (evs[MAX_CODE_ATTEMPTS - a - 1] matches
            LoginEvent::CodeRejected(f) && login_run(LoginState::Challenging(a), evs)
            == LoginState::Failed(challenge_failure_error(f))),
    decreases evs.len(),
{
    if evs.len() > 0 {
        assert(soft_rejection(evs[0]));
        let next = login_next(LoginState::Challenging(a), evs[0]);
        if a + 1 >= MAX_CODE_ATTEMPTS {
            assert(evs[0] matches LoginEvent::CodeRejected(f) && next == LoginState::Failed(
                challenge_failure_error(f),
            ));
            lemma_terminal_states_stable(next, evs.drop_first());
        } else {
            assert(next == LoginState::Challenging((a + 1) as u8));
            assert forall|k: int| 0 <= k < evs.drop_first().len() implies soft_rejection(
                #[trigger] evs.drop_first()[k],
            ) by {
                assert(evs.drop_first()[k] == evs[k + 1]);
                assert(soft_rejection(evs[k + 1]));
            }
            lemma_challenge_rejections((a + 1) as u8, evs.drop_first());
            if evs.len() >= MAX_CODE_ATTEMPTS - a {
                assert(evs.drop_first()[MAX_CODE_ATTEMPTS - a - 2] == evs[MAX_CODE_ATTEMPTS - a
                    - 1]);
            }
        }
    }
}

/// A login that keeps being softly rejected submits exactly
/// `MAX_CODE_ATTEMPTS` codes and then fails: the rejection of the last
/// allowed submission decides the outcome, every later event is ignored.
pub proof fn lemma_challenge_loop_bound(evs: Seq<LoginEvent>)
    requires
        forall|k: int| 0 <= k < evs.len() ==> soft_rejection(#[trigger] evs[k]),
        evs.len() >= MAX_CODE_ATTEMPTS,
    ensures
        evs[MAX_CODE_ATTEMPTS - 1] matches LoginEvent::CodeRejected(f) && login_run(
            LoginState::Challenging(0),
            evs,
        ) == LoginState::Failed(challenge_failure_error(f)),
{
    lemma_challenge_rejections(0, evs);
}

} // verus!
