use guard_core::account::TokenPair;
use guard_core::error::SgError;
use guard_core::login::{ChallengeFailure, CredFailure, GuardKind, LoginEvent, LoginState,
    login_step};

fn soft() -> LoginEvent {
    LoginEvent::CodeRejected(ChallengeFailure::Other("code mismatch".to_string()))
}

#[test]
fn challenge_succeeds_on_third_code() {
    let s = LoginState::AwaitingCredentials;
    let s = login_step(
        s,
        LoginEvent::CredentialsAccepted(vec![GuardKind::Other(2), GuardKind::DeviceCode]),
    );
    assert_eq!(s, LoginState::Challenging(0));
    let s = login_step(s, soft());
    assert_eq!(s, LoginState::Challenging(1));
    let s = login_step(s, soft());
    assert_eq!(s, LoginState::Challenging(2));
    let s = login_step(s, LoginEvent::CodeAccepted);
    assert_eq!(s, LoginState::Polling);
    let s = login_step(
        s,
        LoginEvent::TokensIssued(TokenPair {
            access_token: "at".to_string(),
            refresh_token: "rt".to_string(),
        }),
    );
    assert_eq!(
        s,
        LoginState::Succeeded(TokenPair {
            access_token: "at".to_string(),
            refresh_token: "rt".to_string(),
        })
    );
}

#[test]
fn challenge_fails_after_exactly_three_codes() {
    let s = LoginState::Challenging(0);
    let s = login_step(s, soft());
    let s = login_step(s, soft());
    assert_eq!(s, LoginState::Challenging(2));
    let s = login_step(s, soft());
    assert_eq!(
        s,
        LoginState::Failed(SgError::RemoteError("code mismatch".to_string()))
    );
    // A fourth rejection changes nothing: the attempt already failed.
    let s = login_step(s, soft());
    assert_eq!(
        s,
        LoginState::Failed(SgError::RemoteError("code mismatch".to_string()))
    );
}

#[test]
fn login_without_device_code_method_is_not_supported() {
    let s = login_step(
        LoginState::AwaitingCredentials,
        LoginEvent::CredentialsAccepted(vec![GuardKind::Other(2), GuardKind::Other(3)]),
    );
    assert_eq!(s, LoginState::Failed(SgError::LoginNotSupported));
    let s = login_step(
        LoginState::AwaitingCredentials,
        LoginEvent::CredentialsAccepted(vec![]),
    );
    assert_eq!(s, LoginState::Failed(SgError::LoginNotSupported));
}

#[test]
fn credential_failures_surface_their_classification() {
    let cases = vec![
        (CredFailure::TooManyAttempts, SgError::TooManyAttempts),
        (CredFailure::BadCredentials, SgError::BadCredentials),
        (CredFailure::SessionExpired, SgError::SessionExpired),
        (
            CredFailure::Other("offline".to_string()),
            SgError::RemoteError("offline".to_string()),
        ),
    ];
    for (failure, expected) in cases {
        let s = login_step(
            LoginState::AwaitingCredentials,
            LoginEvent::CredentialsRejected(failure),
        );
        assert_eq!(s, LoginState::Failed(expected));
    }
}

#[test]
fn terminal_challenge_failures_abort_at_once() {
    let cases = vec![
        (ChallengeFailure::TooManyAttempts, SgError::TooManyAttempts),
        (ChallengeFailure::SessionExpired, SgError::SessionExpired),
        (ChallengeFailure::InvalidGuardType, SgError::InvalidGuardType),
    ];
    for (failure, expected) in cases {
        let s = login_step(
            LoginState::Challenging(0),
            LoginEvent::CodeRejected(failure),
        );
        assert_eq!(s, LoginState::Failed(expected));
    }
}

#[test]
fn poll_failure_surfaces_remote_error() {
    let s = login_step(
        LoginState::Polling,
        LoginEvent::PollFailed("timeout".to_string()),
    );
    assert_eq!(s, LoginState::Failed(SgError::RemoteError("timeout".to_string())));
}
