//! What holds of the registry across commands, proved over the views that
//! the commands' own contracts are stated in.

use vstd::prelude::*;
use crate::types::AccountId;
use crate::types::Balance;
use crate::types::Moment;
use crate::types::Sig;
use crate::types::Msg;
use crate::types::Error;
use crate::types::ServiceView;
use crate::types::HashView;
use crate::types::MAX_TAGS;
use crate::bytes::message_time;
use crate::tags::covers;
use crate::scheme::Verifier;
use crate::validator::entry_error;
use crate::validator::lemma_first_refusal;
use crate::ledger::RewardLedger;
use crate::registry::RegistryView;
use crate::registry::reward_for;

verus! {

/// In well-formed tables a name stands at one position only.
pub proof fn lemma_position(m: RegistryView, name: Seq<u8>, at: int)
    requires
        m.wf(),
        0 <= at < m.services.len(),
        m.services[at].name == name,
    ensures
        m.has(name),
        m.position(name) == at,
{
    let p = m.position(name);
    if p < at {
        assert(m.services[p].name != m.services[at].name);
    }
    if at < p {
        assert(m.services[at].name != m.services[p].name);
    }
}

/// A registration that is accepted keeps the tables well-formed, and the
/// new record and its chain head can be found under the name: no heat, no
/// root hash, and the same owner in both.
pub proof fn law_registration_creates_both(
    m: RegistryView,
    provider: AccountId,
    name: Seq<u8>,
    url: Seq<u8>,
    tags: Seq<Seq<u8>>,
    now: Moment,
)
    requires
        m.wf(),
        m.register_error(name, tags) is None,
    ensures
        m.registered(provider, name, url, tags, now).wf(),
        m.registered(provider, name, url, tags, now).service(name) == Some(
            ServiceView { provider, name, url, tags, register_time: now, heat: 0 },
        ),
        m.registered(provider, name, url, tags, now).head(name) == Some(
            HashView { provider, root_hash: None, update_time: now },
        ),
{
    let after = m.registered(provider, name, url, tags, now);
    let n = m.services.len() as int;
    assert forall|i: int, j: int| 0 <= i < j < after.services.len() implies (
    #[trigger] after.services[i]).name != (#[trigger] after.services[j]).name by {
        if j < n {
            assert(m.services[i].name != m.services[j].name);
        } else {
            assert(m.services[i].name != name);
        }
    }
    assert forall|i: int| 0 <= i < after.services.len() implies (
    #[trigger] after.hashes[i]).provider == after.services[i].provider by {
        if i < n {
            assert(m.hashes[i].provider == m.services[i].provider);
        }
    }
    assert forall|i: int| 0 <= i < after.services.len() implies (
    #[trigger] after.services[i]).tags.len() <= MAX_TAGS by {
        if i < n {
            assert(m.services[i].tags.len() <= MAX_TAGS);
        }
    }
    lemma_position(after, name, n);
}

/// Registering a name a second time is refused with `NameExists`, whatever
/// else the second registration says; as a refused registration leaves the
/// tables as they were, the record under the name is still the first one.
pub proof fn law_name_is_registered_once(
    m: RegistryView,
    provider: AccountId,
    name: Seq<u8>,
    url: Seq<u8>,
    tags: Seq<Seq<u8>>,
    now: Moment,
    tags_again: Seq<Seq<u8>>,
)
    requires
        m.wf(),
        m.register_error(name, tags) is None,
    ensures
        m.registered(provider, name, url, tags, now).register_error(name, tags_again) == Some(
            Error::NameExists,
        ),
        m.registered(provider, name, url, tags, now).service(name) == Some(
            ServiceView { provider, name, url, tags, register_time: now, heat: 0 },
        ),
{
    law_registration_creates_both(m, provider, name, url, tags, now);
}

/// A free name is registered with up to ten tags and refused with more.
pub proof fn law_tag_limit(m: RegistryView, name: Seq<u8>, tags: Seq<Seq<u8>>)
    requires
        !m.has(name),
    ensures
        tags.len() <= 10 ==> m.register_error(name, tags) is None,
        tags.len() > 10 ==> m.register_error(name, tags) == Some(Error::TagsOverflow),
{
}

/// A chain that has no root hash yet is extended only by a caller who
/// claims no previous root hash: any claimed hash is a mismatch.
pub proof fn law_first_commit_claims_no_root<V: Verifier, L: RewardLedger>(
    m: RegistryView,
    verifier: &V,
    ledger: &L,
    caller: AccountId,
    name: Seq<u8>,
    batch: Seq<(Sig, Msg)>,
    claimed: Seq<u8>,
)
    requires
        m.wf(),
        m.head(name) matches Some(head) && head.provider == caller && head.root_hash is None,
    ensures
        m.commit_error(verifier, ledger, caller, name, batch, Some(claimed)) == Some(
            Error::RootHashMismatch,
        ),
{
}

/// A caller who does not own the service is refused with
/// `PermissionDenied`, whatever the batch and the root hashes are.
pub proof fn law_only_the_owner_commits<V: Verifier, L: RewardLedger>(
    m: RegistryView,
    verifier: &V,
    ledger: &L,
    caller: AccountId,
    name: Seq<u8>,
    batch: Seq<(Sig, Msg)>,
    expected_prev_root: Option<Seq<u8>>,
)
    requires
        m.wf(),
        m.head(name) matches Some(head) ==> head.provider != caller,
    ensures
        m.commit_error(verifier, ledger, caller, name, batch, expected_prev_root) == Some(
            Error::PermissionDenied,
        ),
{
}

/// The owner's commit on the right root hash is refused with
/// `SignatureTooEarly` when an entry of the batch is older than the chain's
/// last update and every entry before it passes.
pub proof fn law_stale_entry_refuses_batch<V: Verifier, L: RewardLedger>(
    m: RegistryView,
    verifier: &V,
    ledger: &L,
    caller: AccountId,
    name: Seq<u8>,
    batch: Seq<(Sig, Msg)>,
    expected_prev_root: Option<Seq<u8>>,
    at: int,
)
    requires
        m.wf(),
        m.head(name) matches Some(head) && head.provider == caller && head.root_hash
            == expected_prev_root && head.update_time <= u64::MAX && 0 <= at < batch.len()
            && message_time(batch[at].1.0@) < head.update_time && forall|j: int|
            0 <= j < at ==> entry_error(verifier, #[trigger] batch[j], head.update_time as u64)
                is None,
    ensures
        m.commit_error(verifier, ledger, caller, name, batch, expected_prev_root) == Some(
            Error::SignatureTooEarly,
        ),
{
    let head = m.head(name).unwrap();
    lemma_first_refusal(verifier, batch, head.update_time as u64, at);
}

/// An accepted commit of `k` entries keeps the tables well-formed, sets the
/// heat to `k`, whatever it was, and the root hash to the new one; no other
/// field of the record or of the chain head changes.
pub proof fn law_commit_sets_heat_and_root<V: Verifier, L: RewardLedger>(
    m: RegistryView,
    verifier: &V,
    ledger: &L,
    caller: AccountId,
    name: Seq<u8>,
    batch: Seq<(Sig, Msg)>,
    expected_prev_root: Option<Seq<u8>>,
    new_root: Seq<u8>,
    now: Moment,
)
    requires
        m.wf(),
        m.commit_error(verifier, ledger, caller, name, batch, expected_prev_root) is None,
    ensures
        m.committed(name, batch.len() as u64, new_root, now).wf(),
        m.committed(name, batch.len() as u64, new_root, now).service(name) == Some(
            ServiceView { heat: batch.len() as u64, ..m.service(name).unwrap() },
        ),
        m.committed(name, batch.len() as u64, new_root, now).head(name) == Some(
            HashView { provider: caller, root_hash: Some(new_root), update_time: now },
        ),
        batch.len() as u64 == batch.len(),
{
    let after = m.committed(name, batch.len() as u64, new_root, now);
    let at = m.position(name);
    assert forall|i: int, j: int| 0 <= i < j < after.services.len() implies (
    #[trigger] after.services[i]).name != (#[trigger] after.services[j]).name by {
        assert(m.services[i].name != m.services[j].name);
    }
    assert forall|i: int| 0 <= i < after.services.len() implies (
    #[trigger] after.hashes[i]).provider == after.services[i].provider by {
        assert(m.hashes[i].provider == m.services[i].provider);
    }
    assert forall|i: int| 0 <= i < after.services.len() implies (
    #[trigger] after.services[i]).tags.len() <= MAX_TAGS by {
        assert(m.services[i].tags.len() <= MAX_TAGS);
    }
    lemma_position(after, name, at);
    assert(reward_for(batch.len()) <= Balance::MAX);
}

/// After an accepted commit, the next commit to the same service is
/// accepted only if it claims the root hash that the first one set.
pub proof fn law_next_commit_extends_new_root<V: Verifier, L: RewardLedger>(
    m: RegistryView,
    verifier: &V,
    ledger: &L,
    caller: AccountId,
    name: Seq<u8>,
    batch: Seq<(Sig, Msg)>,
    expected_prev_root: Option<Seq<u8>>,
    new_root: Seq<u8>,
    now: Moment,
    next_ledger: &L,
    next_caller: AccountId,
    next_batch: Seq<(Sig, Msg)>,
    next_claimed: Option<Seq<u8>>,
)
    requires
        m.wf(),
        m.commit_error(verifier, ledger, caller, name, batch, expected_prev_root) is None,
        m.committed(name, batch.len() as u64, new_root, now).commit_error(
            verifier,
            next_ledger,
            next_caller,
            name,
            next_batch,
            next_claimed,
        ) is None,
    ensures
        next_claimed == Some(new_root),
        next_caller == caller,
{
    law_commit_sets_heat_and_root(
        m,
        verifier,
        ledger,
        caller,
        name,
        batch,
        expected_prev_root,
        new_root,
        now,
    );
}

/// The reward for an accepted batch of `k` entries is `k` thousand units,
/// and it is what the ledger is asked to grant.
pub proof fn law_reward_per_entry<V: Verifier, L: RewardLedger>(
    m: RegistryView,
    verifier: &V,
    ledger: &L,
    caller: AccountId,
    name: Seq<u8>,
    batch: Seq<(Sig, Msg)>,
    expected_prev_root: Option<Seq<u8>>,
)
    requires
        m.commit_error(verifier, ledger, caller, name, batch, expected_prev_root) is None,
    ensures
        reward_for(batch.len()) == batch.len() * 1000,
        reward_for(batch.len()) as Balance == batch.len() * 1000,
        ledger.grants(caller, (batch.len() * 1000) as Balance),
{
}

/// A query by tags returns exactly the records that carry every target.
pub proof fn law_tagged_is_exact(m: RegistryView, targets: Seq<Seq<u8>>, record: ServiceView)
    ensures
        m.tagged(targets).contains(record) <==> m.services.contains(record) && covers(
            targets,
            record.tags,
        ),
{
    let pick = |s: ServiceView| covers(targets, s.tags);
    if m.tagged(targets).contains(record) {
        let kept = m.services.filter(pick);
        let k = choose|k: int| 0 <= k < kept.len() && kept[k] == record;
        m.services.lemma_filter_contains_rev(pick, record);
        m.services.lemma_filter_pred(pick, k);
    }
    if m.services.contains(record) && covers(targets, record.tags) {
        let i = choose|i: int| 0 <= i < m.services.len() && m.services[i] == record;
        m.services.lemma_filter_contains(pick, i);
    }
}

/// A query without targets returns every record.
pub proof fn law_no_target_matches_all(m: RegistryView)
    ensures
        m.tagged(Seq::<Seq<u8>>::empty()) == m.services,
{
    let none = Seq::<Seq<u8>>::empty();
    let pick = |s: ServiceView| covers(none, s.tags);
    lemma_filter_keeps_all(m.services, pick);
}

/// A filter that every element passes keeps the list as it is.
proof fn lemma_filter_keeps_all(s: Seq<ServiceView>, pick: spec_fn(ServiceView) -> bool)
    requires
        forall|i: int| 0 <= i < s.len() ==> pick(#[trigger] s[i]),
    ensures
        s.filter(pick) == s,
    decreases s.len(),
{
    reveal(Seq::filter);
    if s.len() > 0 {
        assert forall|i: int| 0 <= i < s.drop_last().len() implies pick(
            #[trigger] s.drop_last()[i],
        ) by {
            assert(s.drop_last()[i] == s[i]);
        }
        lemma_filter_keeps_all(s.drop_last(), pick);
        assert(pick(s[s.len() - 1]));
        assert(s.drop_last().push(s.last()) =~= s);
    }
}

/// A query for one tag returns only records that carry it.
pub proof fn law_single_target(m: RegistryView, tag: Seq<u8>, record: ServiceView)
    requires
        m.tagged(seq![tag]).contains(record),
    ensures
        record.tags.contains(tag),
        m.services.contains(record),
{
    law_tagged_is_exact(m, seq![tag], record);
    assert(seq![tag][0] == tag);
}

} // verus!
