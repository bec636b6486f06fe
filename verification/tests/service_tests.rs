use guard_core::account::{Account, TokenPair};
use guard_core::cache::ConfirmationCache;
use guard_core::confirm::{ConfKind, Confirmation, conf_to_u32};
use guard_core::error::SgError;
use guard_core::service::{FetchFlow, FetchPlan, InvalidTokensStep, apply_fetch_success,
    lookup_confirmation, on_confirmation_acted, on_fetch_invalid_tokens, on_refresh_failure,
    plan_get_confirmations};
use guard_core::store::AccountStore;

fn secret20() -> Vec<u8> {
    vec![
        206, 242, 26, 202, 157, 201, 62, 251, 111, 95, 244, 6, 30, 171, 42, 40, 25, 63, 227, 139,
    ]
}

fn acct(name: &str) -> Account {
    Account {
        account_name: name.to_string(),
        steam_id: 42,
        serial_number: "1234".to_string(),
        revocation_code: "R12345".to_string(),
        shared_secret: secret20(),
        token_gid: "gid".to_string(),
        identity_secret: "SECRET-REDACTED".to_string(),
        uri: "otpauth://totp/Steam".to_string(),
        device_id: "android:device".to_string(),
        secret_1: "SECRET-REDACTED".to_string(),
        tokens: None,
    }
}

fn logged_in_store(name: &str) -> AccountStore {
    let mut store = AccountStore::new();
    store.insert(acct(name));
    store
        .attach_tokens(
            name,
            TokenPair { access_token: "at".to_string(), refresh_token: "rt".to_string() },
        )
        .unwrap();
    store
}

fn conf(id: &str, kind: ConfKind) -> Confirmation {
    Confirmation {
        conf_type: kind,
        kind_name: "Confirm".to_string(),
        id: id.to_string(),
        creator_id: format!("creator-{}", id),
        nonce: format!("nonce-{}", id),
        creation_time: 1700000000,
        cancel: "Cancel".to_string(),
        accept: "Accept".to_string(),
        icon: None,
        multi: false,
        headline: "headline".to_string(),
        summary: vec!["summary line".to_string()],
    }
}

#[test]
fn unknown_account_is_refused_before_any_remote_work() {
    let store = AccountStore::new();
    let cache = ConfirmationCache::new();
    assert_eq!(
        plan_get_confirmations(&store, &cache, "ghost", true),
        FetchPlan::Fail(SgError::UnknownAccount)
    );
    assert_eq!(
        plan_get_confirmations(&store, &cache, "ghost", false),
        FetchPlan::Fail(SgError::UnknownAccount)
    );
    assert_eq!(
        lookup_confirmation(&store, &cache, "ghost", "1"),
        Err(SgError::UnknownAccount)
    );
    assert_eq!(store.get_code("ghost", 0), Err(SgError::UnknownAccount));
}

#[test]
fn logged_out_account_cannot_fetch() {
    let mut store = AccountStore::new();
    store.insert(acct("alice"));
    let cache = ConfirmationCache::new();
    assert_eq!(
        plan_get_confirmations(&store, &cache, "alice", true),
        FetchPlan::Fail(SgError::NotLoggedIn)
    );
}

#[test]
fn logged_in_account_is_sent_to_fetch() {
    let store = logged_in_store("alice");
    let cache = ConfirmationCache::new();
    assert_eq!(
        plan_get_confirmations(&store, &cache, "alice", true),
        FetchPlan::Fetch
    );
    assert_eq!(
        plan_get_confirmations(&store, &cache, "alice", false),
        FetchPlan::Fetch
    );
}

#[test]
fn refresh_is_attempted_once_then_session_is_invalidated() {
    let mut store = logged_in_store("alice");
    let mut flow = FetchFlow::new();
    let first = on_fetch_invalid_tokens(&mut store, &mut flow, "alice");
    assert_eq!(first, InvalidTokensStep::Refresh(42, "rt".to_string()));
    assert!(flow.refresh_attempted);
    assert_eq!(store.is_logged_in("alice"), Ok(true));

    let second = on_fetch_invalid_tokens(&mut store, &mut flow, "alice");
    assert_eq!(second, InvalidTokensStep::Abort(SgError::SessionInvalidated));
    assert_eq!(store.is_logged_in("alice"), Ok(false));
}

#[test]
fn failed_refresh_clears_the_tokens() {
    let mut store = logged_in_store("alice");
    assert_eq!(on_refresh_failure(&mut store, "alice"), SgError::SessionInvalidated);
    assert_eq!(store.is_logged_in("alice"), Ok(false));
    assert_eq!(on_refresh_failure(&mut store, "ghost"), SgError::UnknownAccount);
}

#[test]
fn cached_read_returns_exactly_the_fetched_sequence() {
    let store = logged_in_store("alice");
    let mut cache = ConfirmationCache::new();
    let fetched = vec![conf("1", ConfKind::Trade), conf("2", ConfKind::MarketSell)];
    let returned = apply_fetch_success(&mut cache, "alice", fetched);
    assert_eq!(returned.len(), 2);
    match plan_get_confirmations(&store, &cache, "alice", false) {
        FetchPlan::Cached(again) => assert_eq!(again, returned),
        other => panic!("expected the cache to serve, got {:?}", other),
    }
}

#[test]
fn empty_cached_sequence_does_not_serve_a_read() {
    let store = logged_in_store("alice");
    let mut cache = ConfirmationCache::new();
    let returned = apply_fetch_success(&mut cache, "alice", vec![]);
    assert_eq!(returned.len(), 0);
    assert_eq!(
        plan_get_confirmations(&store, &cache, "alice", false),
        FetchPlan::Fetch
    );
}

#[test]
fn accepting_the_second_of_three_keeps_the_rest_in_order() {
    let mut cache = ConfirmationCache::new();
    let fetched = vec![
        conf("a", ConfKind::Trade),
        conf("b", ConfKind::MarketSell),
        conf("c", ConfKind::Test),
    ];
    apply_fetch_success(&mut cache, "alice", fetched);
    assert!(on_confirmation_acted(&mut cache, "alice", "b"));
    let left = cache.lookup("alice").unwrap();
    assert_eq!(left.len(), 2);
    assert_eq!(left[0].id, "a");
    assert_eq!(left[1].id, "c");

    assert!(!on_confirmation_acted(&mut cache, "alice", "zz"));
    let left = cache.lookup("alice").unwrap();
    assert_eq!(left.len(), 2);
    assert_eq!(left[0].id, "a");
    assert_eq!(left[1].id, "c");
}

#[test]
fn accepting_alice_first_confirmation_twice_fails_the_second_time() {
    let store = logged_in_store("alice");
    let mut cache = ConfirmationCache::new();
    let fetched = vec![conf("1", ConfKind::Trade), conf("2", ConfKind::MarketSell)];
    apply_fetch_success(&mut cache, "alice", fetched);

    let found = lookup_confirmation(&store, &cache, "alice", "1").unwrap();
    assert_eq!(found.id, "1");
    assert_eq!(found.conf_type, ConfKind::Trade);
    assert!(on_confirmation_acted(&mut cache, "alice", "1"));

    let left = cache.lookup("alice").unwrap();
    assert_eq!(left.len(), 1);
    assert_eq!(left[0].id, "2");
    assert_eq!(left[0].conf_type, ConfKind::MarketSell);

    assert_eq!(
        lookup_confirmation(&store, &cache, "alice", "1"),
        Err(SgError::ConfirmationNotFound)
    );
    assert!(!on_confirmation_acted(&mut cache, "alice", "1"));
}

#[test]
fn repeated_identifiers_keep_their_first_occurrence() {
    let mut cache = ConfirmationCache::new();
    let fetched = vec![
        conf("x", ConfKind::Trade),
        conf("y", ConfKind::Test),
        conf("x", ConfKind::MarketSell),
    ];
    apply_fetch_success(&mut cache, "alice", fetched);
    let cached = cache.lookup("alice").unwrap();
    assert_eq!(cached.len(), 2);
    assert_eq!(cached[0].id, "x");
    assert_eq!(cached[0].conf_type, ConfKind::Trade);
    assert_eq!(cached[1].id, "y");
}

#[test]
fn replacing_one_account_cache_leaves_the_others() {
    let mut cache = ConfirmationCache::new();
    apply_fetch_success(&mut cache, "alice", vec![conf("1", ConfKind::Trade)]);
    apply_fetch_success(&mut cache, "bob", vec![conf("9", ConfKind::Test)]);
    apply_fetch_success(&mut cache, "alice", vec![conf("2", ConfKind::MarketSell)]);
    let alice = cache.lookup("alice").unwrap();
    assert_eq!(alice.len(), 1);
    assert_eq!(alice[0].id, "2");
    let bob = cache.lookup("bob").unwrap();
    assert_eq!(bob.len(), 1);
    assert_eq!(bob[0].id, "9");
}

#[test]
fn category_codes_are_exact() {
    assert_eq!(conf_to_u32(&ConfKind::Test), 1);
    assert_eq!(conf_to_u32(&ConfKind::Trade), 2);
    assert_eq!(conf_to_u32(&ConfKind::MarketSell), 3);
    assert_eq!(conf_to_u32(&ConfKind::FeatureOptOut), 4);
    assert_eq!(conf_to_u32(&ConfKind::PhoneNumberChange), 5);
    assert_eq!(conf_to_u32(&ConfKind::AccountRecovery), 6);
    assert_eq!(conf_to_u32(&ConfKind::ApiKeyCreation), 9);
    assert_eq!(conf_to_u32(&ConfKind::JoinSteamFamily), 11);
    assert_eq!(conf_to_u32(&ConfKind::Unknown(42)), 42);
}
