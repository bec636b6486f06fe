use guard_core::account::{Account, TokenPair};
use guard_core::error::SgError;
use guard_core::store::AccountStore;

fn secret20() -> Vec<u8> {
    vec![
        206, 242, 26, 202, 157, 201, 62, 251, 111, 95, 244, 6, 30, 171, 42, 40, 25, 63, 227, 139,
    ]
}

fn acct(name: &str) -> Account {
    Account {
        account_name: name.to_string(),
        steam_id: 76561197960287930,
        serial_number: "1234".to_string(),
        revocation_code: "R12345".to_string(),
        shared_secret: secret20(),
        token_gid: "gid".to_string(),
        identity_secret: "SECRET-REDACTED".to_string(),
        uri: "otpauth://totp/Steam".to_string(),
        device_id: "android:device".to_string(),
        secret_1: "SECRET-REDACTED".to_string(),
        tokens: None,
    }
}

#[test]
fn list_names_sorted_without_duplicates() {
    let mut store = AccountStore::new();
    store.insert(acct("carol"));
    store.insert(acct("alice"));
    store.insert(acct("bob"));
    let names = store.list_names();
    assert_eq!(names, vec!["alice".to_string(), "bob".to_string(), "carol".to_string()]);
    store.insert(acct("bob"));
    assert_eq!(store.list_names().len(), 3);
}

#[test]
fn code_matches_known_vector() {
    let mut store = AccountStore::new();
    store.insert(acct("alice"));
    let code = store.get_code("alice", 1616374841).unwrap();
    assert_eq!(code, "2F9J5");
}

#[test]
fn code_for_unknown_account_fails() {
    let store = AccountStore::new();
    assert_eq!(store.get_code("ghost", 0), Err(SgError::UnknownAccount));
}

#[test]
fn tokens_attach_replace_and_clear() {
    let mut store = AccountStore::new();
    store.insert(acct("alice"));
    assert_eq!(store.is_logged_in("alice"), Ok(false));

    let pair = TokenPair { access_token: "at1".to_string(), refresh_token: "rt1".to_string() };
    assert_eq!(store.attach_tokens("alice", pair), Ok(()));
    assert_eq!(store.is_logged_in("alice"), Ok(true));

    assert_eq!(store.set_access_token("alice", "at2".to_string()), Ok(()));
    let account = store.get("alice").unwrap();
    let tokens = account.tokens.as_ref().unwrap();
    assert_eq!(tokens.access_token, "at2");
    assert_eq!(tokens.refresh_token, "rt1");

    assert_eq!(store.clear_tokens("alice"), Ok(()));
    assert_eq!(store.is_logged_in("alice"), Ok(false));
    assert_eq!(
        store.set_access_token("alice", "at3".to_string()),
        Err(SgError::NotLoggedIn)
    );
    assert_eq!(
        store.attach_tokens(
            "ghost",
            TokenPair { access_token: "a".to_string(), refresh_token: "r".to_string() }
        ),
        Err(SgError::UnknownAccount)
    );
}

#[test]
fn token_pair_needs_both_tokens() {
    assert!(TokenPair::from_options(None, None).is_none());
    assert!(TokenPair::from_options(Some("a".to_string()), None).is_none());
    assert!(TokenPair::from_options(None, Some("r".to_string())).is_none());
    let pair = TokenPair::from_options(Some("a".to_string()), Some("r".to_string())).unwrap();
    assert_eq!(pair.access_token, "a");
    assert_eq!(pair.refresh_token, "r");
}
