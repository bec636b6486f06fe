//! The in-memory account registry: records ordered by name, each name held
//! once, with the token pair the only part of a record that ever changes.
use vstd::prelude::*;
use crate::account::{Account, TokenPair, with_tokens};
use crate::error::SgError;
use crate::strcmp::{lex_lt, str_eq, str_lt, lemma_lex_lt_irrefl, lemma_lex_lt_trans,
    lemma_lex_lt_connected};
use crate::totp::{code_of, totp_code};

verus! {

/// The authoritative mapping from account name to account record, kept as a
/// vector strictly ordered by name.
pub struct AccountStore {
    pub accounts: Vec<Account>,
}

impl AccountStore {
    /// The records are strictly ordered by name, so no name repeats.
    pub open spec fn sorted(self) -> bool {
        forall|i: int, j: int|
            0 <= i < j < self.accounts@.len() ==> lex_lt(
                #[trigger] self.accounts@[i].account_name@,
                #[trigger] self.accounts@[j].account_name@,
            )
    }

    pub open spec fn wf(self) -> bool {
        &&& self.sorted()
        &&& forall|i: int| 0 <= i < self.accounts@.len() ==> (#[trigger] self.accounts@[i]).wf()
    }

    /// Whether some record bears the name.
    pub open spec fn has(self, name: Seq<char>) -> bool {
        exists|i: int|
            0 <= i < self.accounts@.len() && (#[trigger] self.accounts@[i]).account_name@ == name
    }

    /// The index of the record bearing the name; meaningful only when `has`.
    pub open spec fn idx(self, name: Seq<char>) -> int {
        choose|i: int|
            0 <= i < self.accounts@.len() && (#[trigger] self.accounts@[i]).account_name@ == name
    }

    /// The record bearing the name; meaningful only when `has`.
    pub open spec fn account_of(self, name: Seq<char>) -> Account {
        self.accounts@[self.idx(name)]
    }

    /// Under well-formedness any index whose record bears the name is the
    /// index of that name.
    pub proof fn lemma_idx_unique(self, name: Seq<char>, i: int)
        requires
            self.wf(),
            0 <= i < self.accounts@.len(),
            self.accounts@[i].account_name@ == name,
        ensures
            self.has(name),
            self.idx(name) == i,
    {
        assert(self.has(name));
        let k = self.idx(name);
        if k < i {
            assert(lex_lt(self.accounts@[k].account_name@, self.accounts@[i].account_name@));
            lemma_lex_lt_irrefl(name);
        } else if i < k {
            assert(lex_lt(self.accounts@[i].account_name@, self.accounts@[k].account_name@));
            lemma_lex_lt_irrefl(name);
        }
    }

    /// An empty registry.
    pub fn new() -> (r: AccountStore)
        ensures
            r.wf(),
            r.accounts@.len() == 0,
    {
        AccountStore { accounts: Vec::new() }
    }

    /// The index of the record bearing the name, if any.
    fn find(&self, name: &str) -> (r: Option<usize>)
        ensures
            r matches Some(i) ==> i < self.accounts@.len()
                && self.accounts@[i as int].account_name@ == name@,
            r is None ==> !self.has(name@),
    {
        let n = self.accounts.len();
        let mut i: usize = 0;
        while i < n
            invariant
                i <= n,
                n == self.accounts@.len(),
                forall|j: int| 0 <= j < i ==> (#[trigger] self.accounts@[j]).account_name@ != name@,
            decreases n - i,
        {
            if str_eq(self.accounts[i].account_name.as_str(), name) {
                return Some(i);
            }
            i = i + 1;
        }
        None
    }

    /// Whether the name is known to the registry.
    pub fn contains(&self, name: &str) -> (r: bool)
        ensures
            r == self.has(name@),
    {
        match self.find(name) {
            Some(i) => {
                proof {
                    assert(self.accounts@[i as int].account_name@ == name@);
                }
                true
            }
            None => false,
        }
    }

    /// All known account names, lexicographically sorted, no duplicates.
    pub fn list_names(&self) -> (r: Vec<String>)
        requires
            self.wf(),
        ensures
            r@.len() == self.accounts@.len(),
            forall|i: int| 0 <= i < r@.len() ==> (#[trigger] r@[i])@
                == self.accounts@[i].account_name@,
            forall|i: int, j: int| 0 <= i < j < r@.len()
                ==> lex_lt((#[trigger] r@[i])@, (#[trigger] r@[j])@),
    {
        let n = self.accounts.len();
        let mut out: Vec<String> = Vec::new();
        let mut i: usize = 0;
        while i < n
            invariant
                i <= n,
                n == self.accounts@.len(),
                out@.len() == i,
                forall|j: int| 0 <= j < i ==> (#[trigger] out@[j])@
                    == self.accounts@[j].account_name@,
            decreases n - i,
        {
            out.push(self.accounts[i].account_name.clone());
            i = i + 1;
        }
        out
    }

    /// The record bearing the name, for reading or persisting.
    pub fn get<'a>(&'a self, name: &str) -> (r: Option<&'a Account>)
        requires
            self.wf(),
        ensures
            r matches Some(a) ==> self.has(name@) && *a == self.account_of(name@),
            r is None ==> !self.has(name@),
    {
        match self.find(name) {
            Some(i) => {
                proof {
                    self.lemma_idx_unique(name@, i as int);
                }
                Some(&self.accounts[i])
            },
            None => None,
        }
    }

    /// The current device code for the account, at the given time.
    pub fn get_code(&self, name: &str, time: u64) -> (r: Result<String, SgError>)
        requires
            self.wf(),
        ensures
            r is Ok <==> self.has(name@),
            r matches Ok(c) ==> c@ == code_of(self.account_of(name@).shared_secret@, time),
            r matches Err(e) ==> e == SgError::UnknownAccount,
    {
        match self.find(name) {
            Some(i) => {
                proof {
                    self.lemma_idx_unique(name@, i as int);
                }
                Ok(totp_code(&self.accounts[i].shared_secret, time))
            }
            None => Err(SgError::UnknownAccount),
        }
    }

    /// Whether the named account currently holds a token pair.
    pub fn is_logged_in(&self, name: &str) -> (r: Result<bool, SgError>)
        requires
            self.wf(),
        ensures
            r is Ok <==> self.has(name@),
            r matches Ok(b) ==> b == self.account_of(name@).logged_in(),
            r matches Err(e) ==> e == SgError::UnknownAccount,
    {
        match self.find(name) {
            Some(i) => {
                proof {
                    self.lemma_idx_unique(name@, i as int);
                }
                Ok(self.accounts[i].is_logged_in())
            }
            None => Err(SgError::UnknownAccount),
        }
    }

    /// An owned copy of the record's identifier and refresh token, which a
    /// token refresh needs; `None` where the account is logged out.
    pub fn refresh_params(&self, name: &str) -> (r: Result<Option<(u64, String)>, SgError>)
        requires
            self.wf(),
        ensures
            r is Ok <==> self.has(name@),
            r matches Err(e) ==> e == SgError::UnknownAccount,
            r matches Ok(p) ==> (p is Some <==> self.account_of(name@).logged_in()),
            r matches Ok(p) ==> (p matches Some(q) ==> q.0 == self.account_of(name@).steam_id
                && q.1@ == self.account_of(name@).tokens.unwrap().refresh_token@),
    {
        match self.find(name) {
            Some(i) => {
                proof {
                    self.lemma_idx_unique(name@, i as int);
                }
                match &self.accounts[i].tokens {
                    Some(t) => Ok(Some((self.accounts[i].steam_id, t.refresh_token.clone()))),
                    None => Ok(None),
                }
            }
            None => Err(SgError::UnknownAccount),
        }
    }

    /// Replace the record at a found index, keeping its position; the names
    /// are unchanged, so order and well-formedness carry over.
    fn replace_at(&mut self, i: usize, account: Account)
        requires
            old(self).wf(),
            i < old(self).accounts@.len(),
            account.wf(),
            account.account_name@ == old(self).accounts@[i as int].account_name@,
        ensures
            final(self).wf(),
            final(self).accounts@ == old(self).accounts@.update(i as int, account),
    {
        let _ = self.accounts.remove(i);
        self.accounts.insert(i, account);
        proof {
            assert(self.accounts@ =~= old(self).accounts@.update(i as int, account));
            assert forall|p: int, q: int| 0 <= p < q < self.accounts@.len() implies lex_lt(
                self.accounts@[p].account_name@,
                self.accounts@[q].account_name@,
            ) by {
                assert(lex_lt(
                    old(self).accounts@[p].account_name@,
                    old(self).accounts@[q].account_name@,
                ));
            }
        }
    }

    /// Replace the account's token pair, or add the first one.
    pub fn attach_tokens(&mut self, name: &str, tokens: TokenPair) -> (r: Result<(), SgError>)
        requires
            old(self).wf(),
        ensures
            final(self).wf(),
            r is Ok <==> old(self).has(name@),
            r matches Err(e) ==> e == SgError::UnknownAccount && *final(self) == *old(self),
            r is Ok ==> final(self).accounts@ == old(self).accounts@.update(
                old(self).idx(name@),
                with_tokens(old(self).account_of(name@), Some(tokens)),
            ),
    {
        match self.find(name) {
            Some(i) => {
                proof {
                    old(self).lemma_idx_unique(name@, i as int);
                }
                let mut a = self.accounts.remove(i);
                a.tokens = Some(tokens);
                self.accounts.insert(i, a);
                proof {
                    assert(self.accounts@ =~= old(self).accounts@.update(
                        i as int,
                        with_tokens(old(self).account_of(name@), Some(tokens)),
                    ));
                    assert forall|p: int, q: int| 0 <= p < q < self.accounts@.len() implies lex_lt(
                        self.accounts@[p].account_name@,
                        self.accounts@[q].account_name@,
                    ) by {
                        assert(lex_lt(
                            old(self).accounts@[p].account_name@,
                            old(self).accounts@[q].account_name@,
                        ));
                    }
                }
                Ok(())
            }
            None => Err(SgError::UnknownAccount),
        }
    }

    /// Keep the refresh token and replace the access token alone, as a
    /// successful token refresh does.
    pub fn set_access_token(&mut self, name: &str, token: String) -> (r: Result<(), SgError>)
        requires
            old(self).wf(),
        ensures
            final(self).wf(),
            !old(self).has(name@) ==> r == Err::<(), SgError>(SgError::UnknownAccount)
                && *final(self) == *old(self),
            old(self).has(name@) && !old(self).account_of(name@).logged_in() ==> r == Err::<(),
                SgError,
            >(SgError::NotLoggedIn) && final(self).accounts@ == old(self).accounts@,
            old(self).has(name@) && old(self).account_of(name@).logged_in() ==> r == Ok::<(),
                SgError,
            >(()) && final(self).accounts@ == old(self).accounts@.update(
                old(self).idx(name@),
                with_tokens(
                    old(self).account_of(name@),
                    Some(
                        TokenPair {
                            access_token: token,
                            refresh_token: old(self).account_of(
                                name@,
                            ).tokens.unwrap().refresh_token,
                        },
                    ),
                ),
            ),
    {
        match self.find(name) {
            Some(i) => {
                proof {
                    old(self).lemma_idx_unique(name@, i as int);
                }
                let mut a = self.accounts.remove(i);
                match a.tokens {
                    Some(t) => {
                        a.tokens = Some(
                            TokenPair { access_token: token, refresh_token: t.refresh_token },
                        );
                        self.accounts.insert(i, a);
                        proof {
                            assert(self.accounts@ =~= old(self).accounts@.update(
                                i as int,
                                with_tokens(
                                    old(self).account_of(name@),
                                    Some(
                                        TokenPair {
                                            access_token: token,
                                            refresh_token: old(self).account_of(
                                                name@,
                                            ).tokens.unwrap().refresh_token,
                                        },
                                    ),
                                ),
                            ));
                            assert forall|p: int, q: int|
                                0 <= p < q < self.accounts@.len() implies lex_lt(
                                self.accounts@[p].account_name@,
                                self.accounts@[q].account_name@,
                            ) by {
                                assert(lex_lt(
                                    old(self).accounts@[p].account_name@,
                                    old(self).accounts@[q].account_name@,
                                ));
                            }
                        }
                        Ok(())
                    },
                    None => {
                        a.tokens = None;
                        self.accounts.insert(i, a);
                        proof {
                            assert(self.accounts@ =~= old(self).accounts@);
                        }
                        Err(SgError::NotLoggedIn)
                    },
                }
            },
            None => Err(SgError::UnknownAccount),
        }
    }

    /// Remove the account's token pair: the session is no longer trusted.
    pub fn clear_tokens(&mut self, name: &str) -> (r: Result<(), SgError>)
        requires
            old(self).wf(),
        ensures
            final(self).wf(),
            r is Ok <==> old(self).has(name@),
            r matches Err(e) ==> e == SgError::UnknownAccount && *final(self) == *old(self),
            r is Ok ==> final(self).accounts@ == old(self).accounts@.update(
                old(self).idx(name@),
                with_tokens(old(self).account_of(name@), None),
            ),
    {
        match self.find(name) {
            Some(i) => {
                proof {
                    old(self).lemma_idx_unique(name@, i as int);
                }
                let mut a = self.accounts.remove(i);
                a.tokens = None;
                self.accounts.insert(i, a);
                proof {
                    assert(self.accounts@ =~= old(self).accounts@.update(
                        i as int,
                        with_tokens(old(self).account_of(name@), None),
                    ));
                    assert forall|p: int, q: int| 0 <= p < q < self.accounts@.len() implies lex_lt(
                        self.accounts@[p].account_name@,
                        self.accounts@[q].account_name@,
                    ) by {
                        assert(lex_lt(
                            old(self).accounts@[p].account_name@,
                            old(self).accounts@[q].account_name@,
                        ));
                    }
                }
                Ok(())
            },
            None => Err(SgError::UnknownAccount),
        }
    }

    /// Add a record under its name, or replace the record that already bears
    /// that name; every other record is untouched.
    pub fn insert(&mut self, account: Account)
        requires
            old(self).wf(),
            account.wf(),
        ensures
            final(self).wf(),
            final(self).has(account.account_name@),
            final(self).account_of(account.account_name@) == account,
            forall|n: Seq<char>| n != account.account_name@ ==> #[trigger] final(self).has(n)
                == old(self).has(n),
            forall|n: Seq<char>|
                n != account.account_name@ && old(self).has(n)
                    ==> #[trigger] final(self).account_of(n) == old(self).account_of(n),
    {
        let n = self.accounts.len();
        let mut i: usize = 0;
        loop
            invariant
                i <= n,
                n == self.accounts@.len(),
                *self == *old(self),
                forall|j: int| 0 <= j < i ==> lex_lt(
                    (#[trigger] self.accounts@[j]).account_name@,
                    account.account_name@,
                ),
            ensures
                i <= n,
                n == self.accounts@.len(),
                *self == *old(self),
                forall|j: int| 0 <= j < i ==> lex_lt(
                    (#[trigger] self.accounts@[j]).account_name@,
                    account.account_name@,
                ),
                i < n ==> !lex_lt(self.accounts@[i as int].account_name@, account.account_name@),
            decreases n - i,
        {
            if i >= n {
                break ;
            }
            if !str_lt(self.accounts[i].account_name.as_str(), account.account_name.as_str()) {
                break ;
            }
            i = i + 1;
        }
        let ghost prev = *old(self);
        let ghost nm = account.account_name@;
        if i < n && str_eq(self.accounts[i].account_name.as_str(), account.account_name.as_str()) {
            self.replace_at(i, account);
            proof {
                self.lemma_idx_unique(nm, i as int);
                assert forall|m: Seq<char>| m != nm implies #[trigger] self.has(m) == prev.has(
                    m,
                ) by {
                    assert forall|j: int|
                        0 <= j < self.accounts@.len() implies (#[trigger] self.accounts@[j]).account_name@
                        == prev.accounts@[j].account_name@ by {}
                    if self.has(m) {
                        let k = self.idx(m);
                        assert(prev.accounts@[k].account_name@ == m);
                    }
                    if prev.has(m) {
                        let k = prev.idx(m);
                        assert(self.accounts@[k].account_name@ == m);
                    }
                }
                assert forall|m: Seq<char>| m != nm && prev.has(m) implies #[trigger] self.account_of(
                    m,
                ) == prev.account_of(m) by {
                    let k = prev.idx(m);
                    assert(prev.accounts@[k].account_name@ == m);
                    assert(self.accounts@[k] == prev.accounts@[k]);
                    self.lemma_idx_unique(m, k);
                }
            }
        } else {
            proof {
                // The new name stands strictly between the scanned prefix and
                // the remainder, so the order is kept and the name is fresh.
                if i < n {
                    assert(self.accounts@[i as int].account_name@ != nm);
                    lemma_lex_lt_connected(self.accounts@[i as int].account_name@, nm);
                }
            }
            self.accounts.insert(i, account);
            proof {
                prev.accounts@.insert_ensures(i as int, account);
                assert(self.accounts@[i as int] == account);
                assert forall|p: int, q: int| 0 <= p < q < self.accounts@.len() implies lex_lt(
                    self.accounts@[p].account_name@,
                    self.accounts@[q].account_name@,
                ) by {
                    if q < i {
                        assert(lex_lt(
                            prev.accounts@[p].account_name@,
                            prev.accounts@[q].account_name@,
                        ));
                    } else if p < i && q == i {
                        assert(lex_lt(prev.accounts@[p].account_name@, nm));
                    } else if p < i && q > i {
                        assert(lex_lt(
                            prev.accounts@[p].account_name@,
                            prev.accounts@[q - 1].account_name@,
                        ));
                    } else if p == i {
                        // nm < prev[i] <= prev[q - 1]
                        assert(lex_lt(nm, prev.accounts@[i as int].account_name@));
                        if q > i + 1 {
                            assert(lex_lt(
                                prev.accounts@[i as int].account_name@,
                                prev.accounts@[q - 1].account_name@,
                            ));
                            lemma_lex_lt_trans(
                                nm,
                                prev.accounts@[i as int].account_name@,
                                prev.accounts@[q - 1].account_name@,
                            );
                        }
                    } else {
                        assert(lex_lt(
                            prev.accounts@[p - 1].account_name@,
                            prev.accounts@[q - 1].account_name@,
                        ));
                    }
                }
                assert(self.wf());
                self.lemma_idx_unique(nm, i as int);
                assert forall|m: Seq<char>| m != nm implies #[trigger] self.has(m) == prev.has(
                    m,
                ) by {
                    if self.has(m) {
                        let k = self.idx(m);
                        if k < i {
                            assert(prev.accounts@[k].account_name@ == m);
                        } else {
                            assert(k > i);
                            assert(prev.accounts@[k - 1].account_name@ == m);
                        }
                    }
                    if prev.has(m) {
                        let k = prev.idx(m);
                        assert(prev.accounts@[k].account_name@ == m);
                        if k < i {
                            assert(self.accounts@[k].account_name@ == m);
                        } else {
                            assert(self.accounts@[k + 1].account_name@ == m);
                        }
                    }
                }
                assert forall|m: Seq<char>| m != nm && prev.has(m) implies #[trigger] self.account_of(
                    m,
                ) == prev.account_of(m) by {
                    let k = prev.idx(m);
                    assert(prev.accounts@[k].account_name@ == m);
                    if k < i {
                        assert(self.accounts@[k] == prev.accounts@[k]);
                        self.lemma_idx_unique(m, k);
                    } else {
                        assert(self.accounts@[k + 1] == prev.accounts@[k]);
                        self.lemma_idx_unique(m, k + 1);
                    }
                }
            }
        }
    }
}

} // verus!
