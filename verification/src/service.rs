//! The confirmation service: the cache-first read path, the fetch with its
//! refresh-once-then-give-up token policy, and identifier-based accept/deny
//! resolution. Each remote outcome is handed back in as a plain value.
use vstd::prelude::*;
use crate::account::with_tokens;
use crate::cache::ConfirmationCache;
use crate::confirm::{Confirmation, ConfirmationInfo, conf_to_info, dedup_ids, has_id, idx_of_id,
    infos_eq, infos_match, lemma_dedup_nonempty, lemma_idx_of_id_unique,
    lemma_infos_match_functional, lemma_removed_id_gone, unique_ids};
use crate::error::SgError;
use crate::store::AccountStore;

verus! {

/// How a confirmation read begins: served from the cache, owed a remote
/// fetch, or refused outright.
#[derive(Debug, PartialEq, Eq)]
pub enum FetchPlan {
    Cached(Vec<ConfirmationInfo>),
    Fetch,
    Fail(SgError),
}

/// Whether the cache alone can serve the read: the caller did not ask for a
/// refresh and a non-empty sequence is cached for the account.
pub open spec fn cache_serves(cache: ConfirmationCache, name: Seq<char>, refresh: bool) -> bool {
    !refresh && cache.has_entry(name) && cache.confs_of(name).len() > 0
}

/// Decide how to serve a confirmation read. With the fast path open, the
/// cached sequence is returned as it stands and no remote call is owed;
/// otherwise an unknown account, then a logged-out account, is refused, and
/// only a known, logged-in account is sent to a remote fetch.
pub fn plan_get_confirmations(
    store: &AccountStore,
    cache: &ConfirmationCache,
    name: &str,
    refresh: bool,
) -> (r: FetchPlan)
    requires
        store.wf(),
        cache.wf(),
    ensures
        cache_serves(*cache, name@, refresh) ==> (r matches FetchPlan::Cached(v) && infos_match(
            cache.confs_of(name@),
            v@,
        )),
        !cache_serves(*cache, name@, refresh) && !store.has(name@) ==> r == FetchPlan::Fail(
            SgError::UnknownAccount,
        ),
        !cache_serves(*cache, name@, refresh) && store.has(name@) && !store.account_of(
            name@,
        ).logged_in() ==> r == FetchPlan::Fail(SgError::NotLoggedIn),
        !cache_serves(*cache, name@, refresh) && store.has(name@) && store.account_of(
            name@,
        ).logged_in() ==> r == FetchPlan::Fetch,
{
    if !refresh {
        match cache.lookup(name) {
            Some(confs) => {
                if confs.len() != 0 {
                    return FetchPlan::Cached(conf_to_info(confs));
                }
            },
            None => {},
        }
    }
    match store.is_logged_in(name) {
        Ok(true) => FetchPlan::Fetch,
        Ok(false) => FetchPlan::Fail(SgError::NotLoggedIn),
        Err(e) => FetchPlan::Fail(e),
    }
}

/// A fetched sequence replaces the account's cache entry wholesale and is
/// returned in summary form, in its fetched order, repeated identifiers
/// dropped.
pub fn apply_fetch_success(cache: &mut ConfirmationCache, name: &str, confs: Vec<Confirmation>) -> (
    r: Vec<ConfirmationInfo>)
    requires
        old(cache).wf(),
    ensures
        final(cache).wf(),
        final(cache).has_entry(name@),
        final(cache).confs_of(name@) == dedup_ids(confs@),
        infos_match(dedup_ids(confs@), r@),
        forall|n: Seq<char>| n != name@ ==> #[trigger] final(cache).has_entry(n) == old(
            cache,
        ).has_entry(n),
        forall|n: Seq<char>|
            n != name@ && old(cache).has_entry(n) ==> #[trigger] final(cache).confs_of(n) == old(
                cache,
            ).confs_of(n),
{
    cache.replace(name, confs);
    match cache.lookup(name) {
        Some(cached) => conf_to_info(cached),
        None => Vec::new(),
    }
}

/// One bounded retry: whether a refresh was already spent on this read.
pub struct FetchFlow {
    pub refresh_attempted: bool,
}

impl FetchFlow {
    /// A fresh read: no refresh spent yet.
    pub fn new() -> (r: FetchFlow)
        ensures
            !r.refresh_attempted,
    {
        FetchFlow { refresh_attempted: false }
    }
}

/// What to do after the remote rejected the tokens: spend the one refresh,
/// or give the session up.
#[derive(Debug, PartialEq, Eq)]
pub enum InvalidTokensStep {
    /// Refresh the access token remotely, with the account's remote
    /// identifier and its refresh token.
    Refresh(u64, String),
    /// Stop with this error.
    Abort(SgError),
}

/// The remote fetch reported invalid tokens. The first time, the one
/// allowed refresh is dispensed and marked spent; the second time, the
/// account's tokens are cleared and the session is given up.
pub fn on_fetch_invalid_tokens(store: &mut AccountStore, flow: &mut FetchFlow, name: &str) -> (r:
    InvalidTokensStep)
    requires
        old(store).wf(),
    ensures
        final(store).wf(),
        !old(store).has(name@) ==> r == InvalidTokensStep::Abort(SgError::UnknownAccount)
            && *final(store) == *old(store) && *final(flow) == *old(flow),
        old(store).has(name@) && !old(store).account_of(name@).logged_in() ==> r
            == InvalidTokensStep::Abort(SgError::NotLoggedIn) && *final(store) == *old(store)
            && *final(flow) == *old(flow),
        old(store).has(name@) && old(store).account_of(name@).logged_in()
            && old(flow).refresh_attempted ==> r == InvalidTokensStep::Abort(
            SgError::SessionInvalidated,
        ) && final(store).accounts@ == old(store).accounts@.update(
            old(store).idx(name@),
            with_tokens(old(store).account_of(name@), None),
        ) && *final(flow) == *old(flow),
        old(store).has(name@) && old(store).account_of(name@).logged_in()
            && !old(flow).refresh_attempted ==> (r matches InvalidTokensStep::Refresh(sid, rt)
            && sid == old(store).account_of(name@).steam_id
            && rt@ == old(store).account_of(name@).tokens.unwrap().refresh_token@
            && *final(store) == *old(store) && final(flow).refresh_attempted),
{
    match store.refresh_params(name) {
        Err(e) => InvalidTokensStep::Abort(e),
        Ok(None) => InvalidTokensStep::Abort(SgError::NotLoggedIn),
        Ok(Some((steam_id, refresh_token))) => {
            if flow.refresh_attempted {
                let _ = store.clear_tokens(name);
                InvalidTokensStep::Abort(SgError::SessionInvalidated)
            } else {
                flow.refresh_attempted = true;
                InvalidTokensStep::Refresh(steam_id, refresh_token)
            }
        },
    }
}

/// The one allowed token refresh itself failed: the tokens are cleared and
/// the session is given up, exactly as after a second rejected fetch.
pub fn on_refresh_failure(store: &mut AccountStore, name: &str) -> (r: SgError)
    requires
        old(store).wf(),
    ensures
        final(store).wf(),
        !old(store).has(name@) ==> r == SgError::UnknownAccount && *final(store) == *old(store),
        old(store).has(name@) ==> r == SgError::SessionInvalidated && final(store).accounts@ == old(
            store,
        ).accounts@.update(
            old(store).idx(name@),
            with_tokens(old(store).account_of(name@), None),
        ),
{
    match store.clear_tokens(name) {
        Ok(()) => SgError::SessionInvalidated,
        Err(e) => e,
    }
}

/// Resolve an accept or deny request against the cache, the only source of
/// truth for which identifiers are actionable: an unknown account is
/// refused, and so is an identifier absent from the account's cached
/// sequence, stale or not.
pub fn lookup_confirmation<'a>(
    store: &AccountStore,
    cache: &'a ConfirmationCache,
    name: &str,
    id: &str,
) -> (r: Result<&'a Confirmation, SgError>)
    requires
        store.wf(),
        cache.wf(),
    ensures
        !store.has(name@) ==> (r matches Err(e) && e == SgError::UnknownAccount),
        store.has(name@) && !(cache.has_entry(name@) && has_id(cache.confs_of(name@), id@)) ==> (
        r matches Err(e) && e == SgError::ConfirmationNotFound),
        store.has(name@) && cache.has_entry(name@) && has_id(cache.confs_of(name@), id@) ==> (
        r matches Ok(c) && *c == cache.confs_of(name@)[idx_of_id(cache.confs_of(name@), id@)]),
{
    if !store.contains(name) {
        return Err(SgError::UnknownAccount);
    }
    match cache.lookup(name) {
        Some(confs) => {
            match crate::confirm::index_of_id(confs, id) {
                Some(k) => {
                    proof {
                        lemma_idx_of_id_unique(cache.confs_of(name@), id@, k as int);
                    }
                    Ok(&confs[k])
                },
                None => Err(SgError::ConfirmationNotFound),
            }
        },
        None => Err(SgError::ConfirmationNotFound),
    }
}

/// The remote accept or deny succeeded: the confirmation leaves the cache,
/// the remainder keeps its order. The cache must already know the
/// identifier, as `lookup_confirmation` established before the remote call.
pub fn on_confirmation_acted(cache: &mut ConfirmationCache, name: &str, id: &str) -> (r: bool)
    requires
        old(cache).wf(),
    ensures
        final(cache).wf(),
        r == (old(cache).has_entry(name@) && has_id(old(cache).confs_of(name@), id@)),
        !r ==> *final(cache) == *old(cache),
        r ==> final(cache).has_entry(name@) && final(cache).confs_of(name@) == old(
            cache,
        ).confs_of(name@).remove(idx_of_id(old(cache).confs_of(name@), id@)),
        forall|n: Seq<char>| n != name@ ==> #[trigger] final(cache).has_entry(n) == old(
            cache,
        ).has_entry(n),
        forall|n: Seq<char>|
            n != name@ && old(cache).has_entry(n) ==> #[trigger] final(cache).confs_of(n) == old(
                cache,
            ).confs_of(n),
{
    cache.remove_confirmation(name, id)
}

/// After a refreshed read fills the cache and returns a non-empty sequence,
/// an immediate read without refresh is served by the cache alone — no
/// remote call is owed — and hands back exactly the same sequence.
pub proof fn lemma_fetch_then_cached_read(
    cache1: ConfirmationCache,
    name: Seq<char>,
    fetched: Seq<Confirmation>,
    returned: Seq<ConfirmationInfo>,
    reread: Seq<ConfirmationInfo>,
)
    requires
        fetched.len() > 0,
        cache1.has_entry(name),
        cache1.confs_of(name) == dedup_ids(fetched),
        infos_match(dedup_ids(fetched), returned),
        infos_match(cache1.confs_of(name), reread),
    ensures
        cache_serves(cache1, name, false),
        infos_eq(returned, reread),
{
    lemma_dedup_nonempty(fetched);
    lemma_infos_match_functional(dedup_ids(fetched), returned, reread);
}

/// A successful accept or deny is not repeatable: once the confirmation has
/// left the cache, its identifier resolves to nothing, so a second attempt
/// is refused as not found rather than silently succeeding.
pub proof fn lemma_accept_idempotent(
    c0: ConfirmationCache,
    c1: ConfirmationCache,
    name: Seq<char>,
    id: Seq<char>,
)
    requires
        c0.wf(),
        c0.has_entry(name),
        has_id(c0.confs_of(name), id),
        c1.has_entry(name),
        c1.confs_of(name) == c0.confs_of(name).remove(idx_of_id(c0.confs_of(name), id)),
    ensures
        !has_id(c1.confs_of(name), id),
{
    let k = c0.entry_idx(name);
    assert(0 <= k < c0.entries@.len() && c0.entries@[k].name@ == name);
    assert(unique_ids(c0.entries@[k].confs@));
    lemma_removed_id_gone(c0.confs_of(name), id);
}

} // verus!
