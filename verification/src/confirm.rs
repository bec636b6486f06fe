//! Pending confirmations: their categories, the caller-facing summary form,
//! and the identifier-based reasoning the cache builds on.
use vstd::prelude::*;

verus! {

/// The enumerated category of a pending confirmation; an unrecognized
/// numeric category is carried as it came.
#[derive(Clone, Copy, Debug, PartialEq, Eq, Structural)]
pub enum ConfKind {
    Test,
    Trade,
    MarketSell,
    FeatureOptOut,
    PhoneNumberChange,
    AccountRecovery,
    ApiKeyCreation,
    JoinSteamFamily,
    Unknown(u32),
}

/// The numeric code the remote service uses for each category.
pub open spec fn kind_code(t: ConfKind) -> u32 {
    match t {
        ConfKind::Test => 1,
        ConfKind::Trade => 2,
        ConfKind::MarketSell => 3,
        ConfKind::FeatureOptOut => 4,
        ConfKind::PhoneNumberChange => 5,
        ConfKind::AccountRecovery => 6,
        ConfKind::ApiKeyCreation => 9,
        ConfKind::JoinSteamFamily => 11,
        ConfKind::Unknown(val) => val,
    }
}

/// The numeric code of a confirmation category.
pub fn conf_to_u32(t: &ConfKind) -> (r: u32)
    ensures
        r == kind_code(*t),
{
    match t {
        ConfKind::Test => 1,
        ConfKind::Trade => 2,
        ConfKind::MarketSell => 3,
        ConfKind::FeatureOptOut => 4,
        ConfKind::PhoneNumberChange => 5,
        ConfKind::AccountRecovery => 6,
        ConfKind::ApiKeyCreation => 9,
        ConfKind::JoinSteamFamily => 11,
        ConfKind::Unknown(val) => *val,
    }
}

/// A pending remote action awaiting the account holder's approval.
#[derive(Debug, PartialEq, Eq)]
pub struct Confirmation {
    pub conf_type: ConfKind,
    pub kind_name: String,
    pub id: String,
    /// Trade offer identifier or market transaction identifier.
    pub creator_id: String,
    /// The opaque value required to act on this confirmation.
    pub nonce: String,
    pub creation_time: u64,
    pub cancel: String,
    pub accept: String,
    pub icon: Option<String>,
    /// Whether this entry bundles several items.
    pub multi: bool,
    pub headline: String,
    pub summary: Vec<String>,
}

/// The caller-facing summary of a confirmation, with the category as its
/// numeric code.
#[derive(Debug, PartialEq, Eq)]
pub struct ConfirmationInfo {
    pub conf_type: u32,
    pub kind_name: String,
    pub id: String,
    pub creator_id: String,
    pub nonce: String,
    pub creation_time: u64,
    pub cancel: String,
    pub accept: String,
    pub icon: Option<String>,
    pub multi: bool,
    pub headline: String,
    pub summary: Vec<String>,
}

/// Whether `f` carries exactly the content of `c`, field for field.
pub open spec fn info_matches(c: Confirmation, f: ConfirmationInfo) -> bool {
    &&& f.conf_type == kind_code(c.conf_type)
    &&& f.kind_name@ == c.kind_name@
    &&& f.id@ == c.id@
    &&& f.creator_id@ == c.creator_id@
    &&& f.nonce@ == c.nonce@
    &&& f.creation_time == c.creation_time
    &&& f.cancel@ == c.cancel@
    &&& f.accept@ == c.accept@
    &&& (f.icon is Some <==> c.icon is Some)
    &&& (c.icon is Some ==> f.icon.unwrap()@ == c.icon.unwrap()@)
    &&& f.multi == c.multi
    &&& f.headline@ == c.headline@
    &&& f.summary.deep_view() == c.summary.deep_view()
}

/// Whether `fs` summarizes `cs` element for element.
pub open spec fn infos_match(cs: Seq<Confirmation>, fs: Seq<ConfirmationInfo>) -> bool {
    &&& fs.len() == cs.len()
    &&& forall|i: int| 0 <= i < cs.len() ==> info_matches(cs[i], #[trigger] fs[i])
}

/// Whether two summaries hold the same content.
pub open spec fn info_eq(x: ConfirmationInfo, y: ConfirmationInfo) -> bool {
    &&& x.conf_type == y.conf_type
    &&& x.kind_name@ == y.kind_name@
    &&& x.id@ == y.id@
    &&& x.creator_id@ == y.creator_id@
    &&& x.nonce@ == y.nonce@
    &&& x.creation_time == y.creation_time
    &&& x.cancel@ == y.cancel@
    &&& x.accept@ == y.accept@
    &&& (x.icon is Some <==> y.icon is Some)
    &&& (x.icon is Some ==> x.icon.unwrap()@ == y.icon.unwrap()@)
    &&& x.multi == y.multi
    &&& x.headline@ == y.headline@
    &&& x.summary.deep_view() == y.summary.deep_view()
}

/// Whether two summary sequences hold the same content, element for element.
pub open spec fn infos_eq(xs: Seq<ConfirmationInfo>, ys: Seq<ConfirmationInfo>) -> bool {
    &&& xs.len() == ys.len()
    &&& forall|i: int| 0 <= i < xs.len() ==> info_eq(#[trigger] xs[i], #[trigger] ys[i])
}

/// Two summaries of one cached sequence hold the same content: what the
/// cache hands back is exactly what the fetch that filled it handed back.
pub proof fn lemma_infos_match_functional(
    cs: Seq<Confirmation>,
    xs: Seq<ConfirmationInfo>,
    ys: Seq<ConfirmationInfo>,
)
    requires
        infos_match(cs, xs),
        infos_match(cs, ys),
    ensures
        infos_eq(xs, ys),
{
}

/// The summary of one confirmation.
fn to_info(c: &Confirmation) -> (r: ConfirmationInfo)
    ensures
        info_matches(*c, r),
{
    let r = ConfirmationInfo {
        conf_type: conf_to_u32(&c.conf_type),
        kind_name: c.kind_name.clone(),
        id: c.id.clone(),
        creator_id: c.creator_id.clone(),
        nonce: c.nonce.clone(),
        creation_time: c.creation_time,
        cancel: c.cancel.clone(),
        accept: c.accept.clone(),
        icon: c.icon.clone(),
        multi: c.multi,
        headline: c.headline.clone(),
        summary: c.summary.clone(),
    };
    proof {
        assert(r.summary.deep_view() =~~= c.summary.deep_view());
    }
    r
}

/// The summaries of a whole sequence of confirmations, in order.
pub fn conf_to_info(confs: &Vec<Confirmation>) -> (r: Vec<ConfirmationInfo>)
    ensures
        infos_match(confs@, r@),
{
    let mut out: Vec<ConfirmationInfo> = Vec::new();
    let n = confs.len();
    let mut i: usize = 0;
    while i < n
        invariant
            i <= n,
            n == confs@.len(),
            out@.len() == i,
            forall|j: int| 0 <= j < i ==> info_matches(confs@[j], #[trigger] out@[j]),
        decreases n - i,
    {
        out.push(to_info(&confs[i]));
        i = i + 1;
    }
    out
}

/// Whether some confirmation in the sequence bears the identifier.
pub open spec fn has_id(s: Seq<Confirmation>, id: Seq<char>) -> bool {
    exists|k: int| 0 <= k < s.len() && (#[trigger] s[k]).id@ == id
}

/// Whether no two confirmations in the sequence share an identifier.
pub open spec fn unique_ids(s: Seq<Confirmation>) -> bool {
    forall|p: int, q: int|
        0 <= p < q < s.len() ==> (#[trigger] s[p]).id@ != (#[trigger] s[q]).id@
}

/// The index of the confirmation bearing the identifier; meaningful only
/// when `has_id` holds and the identifiers are unique.
pub open spec fn idx_of_id(s: Seq<Confirmation>, id: Seq<char>) -> int {
    choose|k: int| 0 <= k < s.len() && (#[trigger] s[k]).id@ == id
}

/// Under unique identifiers, any position bearing the identifier is the
/// position of that identifier.
pub proof fn lemma_idx_of_id_unique(s: Seq<Confirmation>, id: Seq<char>, k: int)
    requires
        unique_ids(s),
        0 <= k < s.len(),
        s[k].id@ == id,
    ensures
        has_id(s, id),
        idx_of_id(s, id) == k,
{
    assert(has_id(s, id));
}

/// The sequence with every repeated identifier dropped: the first
/// confirmation bearing each identifier is kept, in order.
pub open spec fn dedup_ids(s: Seq<Confirmation>) -> Seq<Confirmation>
    decreases s.len(),
{
    if s.len() == 0 {
        Seq::empty()
    } else {
        let d = dedup_ids(s.drop_last());
        if has_id(d, s.last().id@) {
            d
        } else {
            d.push(s.last())
        }
    }
}

/// Deduplication leaves no repeated identifier.
pub proof fn lemma_dedup_unique(s: Seq<Confirmation>)
    ensures
        unique_ids(dedup_ids(s)),
    decreases s.len(),
{
    if s.len() > 0 {
        lemma_dedup_unique(s.drop_last());
    }
}

/// Deduplication keeps exactly the identifiers of the input.
pub proof fn lemma_dedup_same_ids(s: Seq<Confirmation>, id: Seq<char>)
    ensures
        has_id(dedup_ids(s), id) == has_id(s, id),
    decreases s.len(),
{
    if s.len() > 0 {
        let d = dedup_ids(s.drop_last());
        let last = s.last();
        lemma_dedup_same_ids(s.drop_last(), id);
        if !has_id(d, last.id@) {
            if has_id(s, id) {
                let k = choose|k: int| 0 <= k < s.len() && (#[trigger] s[k]).id@ == id;
                if k < s.len() - 1 {
                    assert(s.drop_last()[k].id@ == id);
                    assert(has_id(s.drop_last(), id));
                    let k2 = choose|k2: int| 0 <= k2 < d.len() && (#[trigger] d[k2]).id@ == id;
                    assert(d.push(last)[k2].id@ == id);
                } else {
                    assert(d.push(last)[d.len() as int].id@ == id);
                }
                assert(has_id(dedup_ids(s), id));
            }
            if has_id(d.push(last), id) {
                let k = choose|k: int|
                    0 <= k < d.push(last).len() && (#[trigger] d.push(last)[k]).id@ == id;
                if k < d.len() {
                    assert(d[k].id@ == id);
                    assert(has_id(d, id));
                    let k2 = choose|k2: int|
                        0 <= k2 < s.drop_last().len() && (#[trigger] s.drop_last()[k2]).id@ == id;
                    assert(s[k2].id@ == id);
                } else {
                    assert(s[s.len() - 1].id@ == id);
                }
                assert(has_id(s, id));
            }
        } else {
            if has_id(s, id) {
                let k = choose|k: int| 0 <= k < s.len() && (#[trigger] s[k]).id@ == id;
                if k < s.len() - 1 {
                    assert(s.drop_last()[k].id@ == id);
                }
            }
            if has_id(d, id) {
                let k = choose|k: int|
                    0 <= k < s.drop_last().len() && (#[trigger] s.drop_last()[k]).id@ == id;
                assert(s[k].id@ == id);
            }
        }
    }
}

/// A sequence whose identifiers are already unique is left exactly as it is.
pub proof fn lemma_dedup_identity(s: Seq<Confirmation>)
    requires
        unique_ids(s),
    ensures
        dedup_ids(s) == s,
    decreases s.len(),
{
    if s.len() > 0 {
        lemma_dedup_identity(s.drop_last());
        lemma_dedup_same_ids(s.drop_last(), s.last().id@);
        if has_id(s.drop_last(), s.last().id@) {
            let k = choose|k: int|
                0 <= k < s.drop_last().len() && (#[trigger] s.drop_last()[k]).id@ == s.last().id@;
            assert(s[k].id@ == s[s.len() - 1].id@);
            assert(false);
        }
        assert(dedup_ids(s) =~= s);
    }
}

/// A non-empty sequence stays non-empty: its first confirmation survives.
pub proof fn lemma_dedup_nonempty(s: Seq<Confirmation>)
    requires
        s.len() > 0,
    ensures
        dedup_ids(s).len() > 0,
    decreases s.len(),
{
    if s.len() > 1 {
        lemma_dedup_nonempty(s.drop_last());
    }
}

/// Removing one confirmation keeps the remaining identifiers unique.
pub proof fn lemma_remove_keeps_unique(s: Seq<Confirmation>, k: int)
    requires
        unique_ids(s),
        0 <= k < s.len(),
    ensures
        unique_ids(s.remove(k)),
{
    s.remove_ensures(k);
    assert forall|p: int, q: int| 0 <= p < q < s.remove(k).len() implies (
    #[trigger] s.remove(k)[p]).id@ != (#[trigger] s.remove(k)[q]).id@ by {
        let p0: int = if p < k {
            p
        } else {
            p + 1
        };
        let q0: int = if q < k {
            q
        } else {
            q + 1
        };
        assert(s.remove(k)[p] == s[p0]);
        assert(s.remove(k)[q] == s[q0]);
        assert(s[p0].id@ != s[q0].id@);
    }
}

/// Once the lone confirmation bearing an identifier is removed, the
/// identifier is gone: acting on it again cannot find it.
pub proof fn lemma_removed_id_gone(s: Seq<Confirmation>, id: Seq<char>)
    requires
        unique_ids(s),
        has_id(s, id),
    ensures
        !has_id(s.remove(idx_of_id(s, id)), id),
{
    let k = idx_of_id(s, id);
    s.remove_ensures(k);
    if has_id(s.remove(k), id) {
        let p = choose|p: int|
            0 <= p < s.remove(k).len() && (#[trigger] s.remove(k)[p]).id@ == id;
        let p0: int = if p < k {
            p
        } else {
            p + 1
        };
        assert(s.remove(k)[p] == s[p0]);
        lemma_idx_of_id_unique(s, id, p0);
    }
}

/// Whether some confirmation in the vector bears the identifier.
fn contains_id(confs: &Vec<Confirmation>, id: &str) -> (r: bool)
    ensures
        r == has_id(confs@, id@),
{
    let n = confs.len();
    let mut i: usize = 0;
    while i < n
        invariant
            i <= n,
            n == confs@.len(),
            forall|j: int| 0 <= j < i ==> (#[trigger] confs@[j]).id@ != id@,
        decreases n - i,
    {
        if crate::strcmp::str_eq(confs[i].id.as_str(), id) {
            proof {
                assert(confs@[i as int].id@ == id@);
            }
            return true;
        }
        i = i + 1;
    }
    false
}

/// The position of the first confirmation bearing the identifier, if any.
pub(crate) fn index_of_id(confs: &Vec<Confirmation>, id: &str) -> (r: Option<usize>)
    ensures
        r matches Some(k) ==> k < confs@.len() && confs@[k as int].id@ == id@,
        r is None ==> !has_id(confs@, id@),
{
    let n = confs.len();
    let mut i: usize = 0;
    while i < n
        invariant
            i <= n,
            n == confs@.len(),
            forall|j: int| 0 <= j < i ==> (#[trigger] confs@[j]).id@ != id@,
        decreases n - i,
    {
        if crate::strcmp::str_eq(confs[i].id.as_str(), id) {
            return Some(i);
        }
        i = i + 1;
    }
    None
}

/// The input with every repeated identifier dropped, first occurrences kept
/// in order.
pub(crate) fn dedup_by_id(confs: Vec<Confirmation>) -> (r: Vec<Confirmation>)
    ensures
        r@ == dedup_ids(confs@),
{
    let ghost orig = confs@;
    let mut input = confs;
    let mut out: Vec<Confirmation> = Vec::new();
    loop
        invariant
            input@.len() <= orig.len(),
            input@ == orig.skip(orig.len() - input@.len()),
            out@ == dedup_ids(orig.take(orig.len() - input@.len())),
        ensures
            out@ == dedup_ids(orig),
        decreases input@.len(),
    {
        if input.len() == 0 {
            proof {
                assert(orig.take(orig.len() as int) =~= orig);
            }
            break ;
        }
        let ghost k = orig.len() - input@.len();
        let c = input.remove(0);
        proof {
            assert(c == orig[k]);
            assert(input@ =~= orig.skip(orig.len() - input@.len()));
            assert(orig.take(k + 1).drop_last() =~= orig.take(k));
            assert(orig.take(k + 1).last() == orig[k]);
        }
        if !contains_id(&out, c.id.as_str()) {
            out.push(c);
        }
    }
    out
}

} // verus!
