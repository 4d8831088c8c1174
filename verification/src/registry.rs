//! The registry: the table of services and the table of chain heads, kept in
//! lockstep, with the commands that change them and the queries that read
//! them.

use vstd::prelude::*;
use crate::types::AccountId;
use crate::types::Balance;
use crate::types::Moment;
use crate::types::Tag;
use crate::types::RootHash;
use crate::types::Sig;
use crate::types::Msg;
use crate::types::Error;
use crate::types::Event;
use crate::types::SearchServiceInfo;
use crate::types::SearchServiceHash;
use crate::types::ServiceView;
use crate::types::HashView;
use crate::types::tags_view;
use crate::types::root_view;
use crate::types::services_view;
use crate::types::hashes_view;
use crate::types::REWARD_PER_HEAT;
use crate::types::MAX_TAGS;
use crate::types::RECOMMEND_LIMIT;
use crate::bytes::bytes_eq;
use crate::bytes::copy_bytes;
use crate::tags::covers;
use crate::tags::is_in_tags;
use crate::scheme::Verifier;
use crate::validator::validation_error;
use crate::validator::validate_signatures;
use crate::ledger::RewardLedger;

verus! {

/// The two tables as mathematical sequences: the record and the chain head
/// of a service stand at the same position, in the order of registration.
pub struct RegistryView {
    pub services: Seq<ServiceView>,
    pub hashes: Seq<HashView>,
}

/// The reward for a batch of `k` entries.
pub open spec fn reward_for(k: nat) -> int {
    k * REWARD_PER_HEAT
}

impl RegistryView {
    /// The tables' invariant: one chain head per record, no name twice, the
    /// head's owner is the record's owner, and no record has too many tags.
    pub open spec fn wf(self) -> bool {
        &&& self.services.len() == self.hashes.len()
        &&& forall|i: int, j: int|
            0 <= i < j < self.services.len() ==> (#[trigger] self.services[i]).name != (
            #[trigger] self.services[j]).name
        &&& forall|i: int|
            0 <= i < self.services.len() ==> (#[trigger] self.hashes[i]).provider
                == self.services[i].provider
        &&& forall|i: int|
            0 <= i < self.services.len() ==> (#[trigger] self.services[i]).tags.len() <= MAX_TAGS
    }

    /// Whether a service of this name is registered.
    pub open spec fn has(self, name: Seq<u8>) -> bool {
        exists|i: int| 0 <= i < self.services.len() && (#[trigger] self.services[i]).name == name
    }

    /// The position of the service of this name.
    pub open spec fn position(self, name: Seq<u8>) -> int {
        choose|i: int| 0 <= i < self.services.len() && (#[trigger] self.services[i]).name == name
    }

    /// The record of the service of this name.
    pub open spec fn service(self, name: Seq<u8>) -> Option<ServiceView> {
        if self.has(name) {
            Some(self.services[self.position(name)])
        } else {
            None
        }
    }

    /// The chain head of the service of this name.
    pub open spec fn head(self, name: Seq<u8>) -> Option<HashView> {
        if self.has(name) {
            Some(self.hashes[self.position(name)])
        } else {
            None
        }
    }

    /// Why a registration is refused, if it is: the name is tested before
    /// the number of tags.
    pub open spec fn register_error(self, name: Seq<u8>, tags: Seq<Seq<u8>>) -> Option<Error> {
        if self.has(name) {
            Some(Error::NameExists)
        } else if tags.len() > MAX_TAGS {
            Some(Error::TagsOverflow)
        } else {
            None
        }
    }

    /// The tables after a registration: a record with no heat and a chain
    /// head without a root hash, both stamped with `now`.
    pub open spec fn registered(
        self,
        provider: AccountId,
        name: Seq<u8>,
        url: Seq<u8>,
        tags: Seq<Seq<u8>>,
        now: Moment,
    ) -> RegistryView {
        RegistryView {
            services: self.services.push(
                ServiceView { provider, name, url, tags, register_time: now, heat: 0 },
            ),
            hashes: self.hashes.push(HashView { provider, root_hash: None, update_time: now }),
        }
    }

    /// Why a commit is refused, if it is. The tests are made in this order:
    /// the caller owns the service (an unknown name has no owner); the root
    /// hash that the caller extends is the stored one; the batch validates
    /// against the chain's last update; the reward fits the ledger's balance
    /// type; the ledger grants the reward.
    pub open spec fn commit_error<V: Verifier, L: RewardLedger>(
        self,
        verifier: &V,
        ledger: &L,
        caller: AccountId,
        name: Seq<u8>,
        batch: Seq<(Sig, Msg)>,
        expected_prev_root: Option<Seq<u8>>,
    ) -> Option<Error> {
        if !self.has(name) {
            Some(Error::PermissionDenied)
        } else {
            let head = self.hashes[self.position(name)];
            if head.provider != caller {
                Some(Error::PermissionDenied)
            } else if head.root_hash != expected_prev_root {
                Some(Error::RootHashMismatch)
            } else if validation_error(verifier, batch, head.update_time) is Some {
                validation_error(verifier, batch, head.update_time)
            } else if reward_for(batch.len()) > Balance::MAX {
                Some(Error::BalanceConversionError)
            } else if !ledger.grants(caller, reward_for(batch.len()) as Balance) {
                Some(Error::RewardTransferFailed)
            } else {
                None
            }
        }
    }

    /// The tables after a commit of `heat` entries: the chain head takes the
    /// new root hash and `now`, the record takes the batch's size as heat.
    pub open spec fn committed(self, name: Seq<u8>, heat: u64, new_root: Seq<u8>, now: Moment) -> RegistryView {
        let at = self.position(name);
        RegistryView {
            services: self.services.update(at, ServiceView { heat, ..self.services[at] }),
            hashes: self.hashes.update(
                at,
                HashView { root_hash: Some(new_root), update_time: now, ..self.hashes[at] },
            ),
        }
    }

    /// The records that carry all the target tags, in the tables' order.
    pub open spec fn tagged(self, targets: Seq<Seq<u8>>) -> Seq<ServiceView> {
        self.services.filter(|s: ServiceView| covers(targets, s.tags))
    }

    /// The first records of the table, as many as a recommendation holds.
    pub open spec fn recommended(self) -> Seq<ServiceView> {
        if self.services.len() <= RECOMMEND_LIMIT {
            self.services
        } else {
            self.services.subrange(0, RECOMMEND_LIMIT as int)
        }
    }
}

impl SearchServiceInfo {
    /// A copy of the record.
    pub fn duplicate(&self) -> (copy: SearchServiceInfo)
        ensures
            copy@ == self@,
    {
        let mut tags: Vec<Tag> = Vec::new();
        let mut i: usize = 0;
        while i < self.tags.len()
            invariant
                i <= self.tags.len(),
                tags_view(tags@) == tags_view(self.tags@).subrange(0, i as int),
            decreases self.tags.len() - i,
        {
            let ghost before = tags@;
            tags.push(copy_bytes(&self.tags[i]));
            proof {
                assert(tags_view(tags@) =~= tags_view(before).push(self.tags@[i as int]@));
                assert(tags_view(self.tags@).subrange(0, i + 1) =~= tags_view(self.tags@).subrange(
                    0,
                    i as int,
                ).push(self.tags@[i as int]@));
            }
            i += 1;
        }
        proof {
            assert(tags_view(self.tags@).subrange(0, self.tags.len() as int) =~= tags_view(
                self.tags@,
            ));
        }
        SearchServiceInfo {
            provider: self.provider,
            name: copy_bytes(&self.name),
            url: copy_bytes(&self.url),
            tags,
            register_time: self.register_time,
            heat: self.heat,
        }
    }
}

impl SearchServiceHash {
    /// A copy of the chain head.
    pub fn duplicate(&self) -> (copy: SearchServiceHash)
        ensures
            copy@ == self@,
    {
        let root_hash = match &self.root_hash {
            Some(h) => Some(copy_bytes(h)),
            None => None,
        };
        SearchServiceHash { provider: self.provider, root_hash, update_time: self.update_time }
    }
}

/// Whether two optional root hashes are the same.
pub fn same_root(a: &Option<RootHash>, b: &Option<RootHash>) -> (same: bool)
    ensures
        same == (root_view(*a) == root_view(*b)),
{
    match (a, b) {
        (Some(x), Some(y)) => bytes_eq(x, y),
        (None, None) => true,
        _ => false,
    }
}

/// The registry of search services with their audit chains.
#[derive(Debug)]
pub struct Module {
    services: Vec<SearchServiceInfo>,
    hashes: Vec<SearchServiceHash>,
}

impl View for Module {
    type V = RegistryView;

    closed spec fn view(&self) -> RegistryView {
        RegistryView { services: services_view(self.services@), hashes: hashes_view(self.hashes@) }
    }
}

impl Module {
    /// The tables' invariant.
    pub open spec fn wf(&self) -> bool {
        self@.wf()
    }

    /// An empty registry.
    pub fn new() -> (registry: Module)
        ensures
            registry.wf(),
            registry@.services == Seq::<ServiceView>::empty(),
            registry@.hashes == Seq::<HashView>::empty(),
    {
        let registry = Module { services: Vec::new(), hashes: Vec::new() };
        proof {
            assert(registry@.services =~= Seq::<ServiceView>::empty());
            assert(registry@.hashes =~= Seq::<HashView>::empty());
        }
        registry
    }

    /// The number of registered services.
    pub fn len(&self) -> (n: usize)
        ensures
            n == self@.services.len(),
    {
        self.services.len()
    }

    /// The position of the service of this name.
    fn find(&self, name: &Vec<u8>) -> (at: Option<usize>)
        requires
            self.wf(),
        ensures
            at is Some == self@.has(name@),
            at matches Some(i) ==> i == self@.position(name@) && i < self@.services.len(),
    {
        let mut i: usize = 0;
        while i < self.services.len()
            invariant
                self.wf(),
                i <= self.services.len(),
                forall|k: int| 0 <= k < i ==> (#[trigger] self@.services[k]).name != name@,
            decreases self.services.len() - i,
        {
            if bytes_eq(&self.services[i].name, name) {
                proof {
                    let p = self@.position(name@);
                    assert(self@.services[i as int].name == name@);
                    assert(0 <= p < self@.services.len() && self@.services[p].name == name@);
                    if p < i {
                        assert(self@.services[p].name != self@.services[i as int].name);
                    }
                    if i < p {
                        assert(self@.services[i as int].name != self@.services[p].name);
                    }
                }
                return Some(i);
            }
            i += 1;
        }
        None
    }

    /// Registers a service under a name that is still free, with at most ten
    /// tags, owned by `provider`. A refused registration changes nothing.
    pub fn register_search_service(
        &mut self,
        provider: AccountId,
        name: Vec<u8>,
        url: Vec<u8>,
        tags: Vec<Tag>,
        now: Moment,
    ) -> (outcome: Result<(), Error>)
        requires
            old(self).wf(),
        ensures
            final(self).wf(),
            match old(self)@.register_error(name@, tags_view(tags@)) {
                Some(e) => outcome == Err::<(), Error>(e) && final(self)@ == old(self)@,
                None => outcome == Ok::<(), Error>(()) && final(self)@ == old(self)@.registered(
                    provider,
                    name@,
                    url@,
                    tags_view(tags@),
                    now,
                ),
            },
    {
        if self.find(&name).is_some() {
            return Err(Error::NameExists);
        }
        if tags.len() > MAX_TAGS {
            return Err(Error::TagsOverflow);
        }
        let ss_info = SearchServiceInfo { provider, name, url, tags, register_time: now, heat: 0 };
        let ss_hash = SearchServiceHash { provider, root_hash: None, update_time: now };
        let ghost info_view = ss_info@;
        let ghost hash_view = ss_hash@;
        self.services.push(ss_info);
        self.hashes.push(ss_hash);
        proof {
            assert(self@.services =~= old(self)@.services.push(info_view));
            assert(self@.hashes =~= old(self)@.hashes.push(hash_view));
        }
        Ok(())
    }

    /// Commits a batch of signed entries to the audit chain of a service.
    ///
    /// Everything is tested against the tables as they stand before anything
    /// is changed, so a refused commit changes neither table and credits
    /// nothing. An accepted commit advances the chain head to `root_hash`
    /// and `now`, sets the record's heat to the size of the batch, credits
    /// the caller with the reward for the batch, and reports the moment.
    pub fn upload_searched_info<V: Verifier, L: RewardLedger>(
        &mut self,
        verifier: &V,
        ledger: &mut L,
        ssp: AccountId,
        name: Vec<u8>,
        signs: Vec<(Sig, Msg)>,
        root_hash: RootHash,
        last_root_hash: Option<RootHash>,
        now: Moment,
    ) -> (outcome: Result<Event, Error>)
        requires
            old(self).wf(),
            old(ledger).wf(),
        ensures
            final(self).wf(),
            final(ledger).wf(),
            match old(self)@.commit_error(
                verifier,
                old(ledger),
                ssp,
                name@,
                signs@,
                root_view(last_root_hash),
            ) {
                Some(e) => {
                    &&& outcome == Err::<Event, Error>(e)
                    &&& final(self)@ == old(self)@
                    &&& final(ledger).credits() == old(ledger).credits()
                },
                None => {
                    &&& outcome == Ok::<Event, Error>(Event::Timestamp(now))
                    &&& final(self)@ == old(self)@.committed(
                        name@,
                        signs@.len() as u64,
                        root_hash@,
                        now,
                    )
                    &&& final(ledger).credits() == old(ledger).credits().push(
                        (ssp, reward_for(signs@.len()) as Balance),
                    )
                },
            },
    {
        let at = match self.find(&name) {
            Some(at) => at,
            None => {
                return Err(Error::PermissionDenied);
            },
        };
        if self.hashes[at].provider != ssp {
            return Err(Error::PermissionDenied);
        }
        if !same_root(&self.hashes[at].root_hash, &last_root_hash) {
            return Err(Error::RootHashMismatch);
        }
        match validate_signatures(verifier, &signs, self.hashes[at].update_time) {
            Err(e) => {
                return Err(e);
            },
            Ok(()) => {},
        }
        let signs_len: usize = signs.len();
        let wide: u128 = (signs_len as u128) * (REWARD_PER_HEAT as u128);
        if wide > 0xffff_ffff_ffff_ffff {
            return Err(Error::BalanceConversionError);
        }
        let reward: Balance = wide as Balance;
        if !ledger.credit(ssp, reward) {
            return Err(Error::RewardTransferFailed);
        }
        let ss_hash = SearchServiceHash {
            provider: ssp,
            root_hash: Some(root_hash),
            update_time: now,
        };
        let mut ss_info = self.services[at].duplicate();
        ss_info.heat = signs_len as u64;
        let ghost info_view = ss_info@;
        let ghost hash_view = ss_hash@;
        self.hashes.set(at, ss_hash);
        self.services.set(at, ss_info);
        proof {
            assert(self@.services =~= old(self)@.services.update(at as int, info_view));
            assert(self@.hashes =~= old(self)@.hashes.update(at as int, hash_view));
        }
        Ok(Event::Timestamp(now))
    }

    /// The record of the service of this name.
    pub fn get_ss(&self, name: &Vec<u8>) -> (found: Option<SearchServiceInfo>)
        requires
            self.wf(),
        ensures
            match found {
                Some(info) => self@.service(name@) == Some(info@),
                None => self@.service(name@) is None,
            },
    {
        match self.find(name) {
            Some(at) => Some(self.services[at].duplicate()),
            None => None,
        }
    }

    /// The chain head of the service of this name.
    pub fn get_hash(&self, name: &Vec<u8>) -> (found: Option<SearchServiceHash>)
        requires
            self.wf(),
        ensures
            match found {
                Some(head) => self@.head(name@) == Some(head@),
                None => self@.head(name@) is None,
            },
    {
        match self.find(name) {
            Some(at) => Some(self.hashes[at].duplicate()),
            None => None,
        }
    }

    /// The record of the service of this name.
    pub fn get_ss_by_name(&self, ss_name: &Vec<u8>) -> (found: Option<SearchServiceInfo>)
        requires
            self.wf(),
        ensures
            match found {
                Some(info) => self@.service(ss_name@) == Some(info@),
                None => self@.service(ss_name@) is None,
            },
    {
        self.get_ss(ss_name)
    }

    /// Up to ten records, in the order of registration.
    pub fn recommend_ss(&self) -> (list: Vec<SearchServiceInfo>)
        ensures
            services_view(list@) == self@.recommended(),
    {
        let mut list: Vec<SearchServiceInfo> = Vec::new();
        let mut i: usize = 0;
        while i < self.services.len() && i < RECOMMEND_LIMIT
            invariant
                i <= self.services.len(),
                i <= RECOMMEND_LIMIT,
                services_view(list@) == self@.services.subrange(0, i as int),
            decreases self.services.len() - i,
        {
            let ghost before = list@;
            list.push(self.services[i].duplicate());
            proof {
                assert(services_view(list@) =~= services_view(before).push(
                    self@.services[i as int],
                ));
                assert(self@.services.subrange(0, i + 1) =~= self@.services.subrange(
                    0,
                    i as int,
                ).push(self@.services[i as int]));
            }
            i += 1;
        }
        proof {
            assert(self@.services.subrange(0, self@.services.len() as int) =~= self@.services);
        }
        list
    }

    /// Every record whose tags hold all the target tags, in the order of
    /// registration.
    pub fn get_ss_by_tags(&self, tags: &Vec<Tag>) -> (list: Vec<SearchServiceInfo>)
        ensures
            services_view(list@) == self@.tagged(tags_view(tags@)),
    {
        let ghost pick = |s: ServiceView| covers(tags_view(tags@), s.tags);
        let mut list: Vec<SearchServiceInfo> = Vec::new();
        let mut i: usize = 0;
        while i < self.services.len()
            invariant
                i <= self.services.len(),
                pick == |s: ServiceView| covers(tags_view(tags@), s.tags),
                services_view(list@) == self@.services.subrange(0, i as int).filter(pick),
            decreases self.services.len() - i,
        {
            let ghost before = list@;
            proof {
                lemma_filter_push(
                    self@.services.subrange(0, i as int),
                    self@.services[i as int],
                    pick,
                );
                assert(self@.services.subrange(0, i + 1) =~= self@.services.subrange(
                    0,
                    i as int,
                ).push(self@.services[i as int]));
            }
            if is_in_tags(tags, &self.services[i].tags) {
                list.push(self.services[i].duplicate());
                proof {
                    assert(services_view(list@) =~= services_view(before).push(
                        self@.services[i as int],
                    ));
                }
            }
            i += 1;
        }
        proof {
            assert(self@.services.subrange(0, self@.services.len() as int) =~= self@.services);
        }
        list
    }
}

/// Filtering a list with one more record filters that record too.
pub proof fn lemma_filter_push(s: Seq<ServiceView>, x: ServiceView, pick: spec_fn(ServiceView) -> bool)
    ensures
        s.push(x).filter(pick) == if pick(x) {
            s.filter(pick).push(x)
        } else {
            s.filter(pick)
        },
{
    reveal(Seq::filter);
    assert(s.push(x).drop_last() =~= s);
}

} // verus!
