//! The data held by the registry, with the mathematical view of each record.

use vstd::prelude::*;

verus! {

/// An account identifier, already resolved and authenticated by the host.
pub type AccountId = u64;

/// A point in time as the host's clock gives it.
pub type Moment = u128;

/// An amount of the reward token.
pub type Balance = u64;

/// A tag that describes a service.
pub type Tag = Vec<u8>;

/// The root hash of a committed batch of audit entries.
pub type RootHash = Vec<u8>;

/// Units of reward credited for every entry of an accepted batch.
pub const REWARD_PER_HEAT: u64 = 1000;

/// The largest number of tags a service may be registered with.
pub const MAX_TAGS: usize = 10;

/// The largest number of records that a recommendation returns.
pub const RECOMMEND_LIMIT: usize = 10;

/// A signature in RSV form: 64 bytes of R and S followed by the recovery byte.
#[derive(Clone, Copy, Debug, PartialEq, Eq)]
pub struct Sig(pub [u8; 65]);

/// A signed message of 32 bytes whose first eight bytes hold a big-endian
/// timestamp.
#[derive(Clone, Copy, Debug, PartialEq, Eq)]
pub struct Msg(pub [u8; 32]);

/// Why a command was refused.
#[derive(Clone, Copy, Debug, PartialEq, Eq, Structural)]
pub enum Error {
    /// The service was registered with more tags than allowed.
    TagsOverflow,
    /// A service of that name is registered already.
    NameExists,
    /// The previous root hash that the caller claims is not the stored one.
    RootHashMismatch,
    /// A signature of the batch did not verify.
    SignatureInvalid,
    /// The caller does not own the service.
    PermissionDenied,
    /// An entry of the batch is older than the chain's last update.
    SignatureTooEarly,
    /// The reward does not fit the ledger's balance type.
    BalanceConversionError,
    /// The chain's last update does not fit a 64-bit epoch value.
    TimestampConversionError,
    /// The ledger refused to credit the reward.
    RewardTransferFailed,
}

/// What the registry knows of a service.
#[derive(Debug, PartialEq, Eq)]
pub struct SearchServiceInfo {
    pub provider: AccountId,
    pub name: Vec<u8>,
    pub url: Vec<u8>,
    pub tags: Vec<Tag>,
    pub register_time: Moment,
    pub heat: u64,
}

/// The view of a service record.
pub struct ServiceView {
    pub provider: AccountId,
    pub name: Seq<u8>,
    pub url: Seq<u8>,
    pub tags: Seq<Seq<u8>>,
    pub register_time: Moment,
    pub heat: u64,
}

impl View for SearchServiceInfo {
    type V = ServiceView;

    open spec fn view(&self) -> ServiceView {
        ServiceView {
            provider: self.provider,
            name: self.name@,
            url: self.url@,
            tags: tags_view(self.tags@),
            register_time: self.register_time,
            heat: self.heat,
        }
    }
}

impl Default for SearchServiceInfo {
    /// The empty record: no owner, no name, no tags, no heat.
    fn default() -> (info: SearchServiceInfo)
        ensures
            info@ == (ServiceView {
                provider: 0,
                name: Seq::empty(),
                url: Seq::empty(),
                tags: Seq::empty(),
                register_time: 0,
                heat: 0,
            }),
    {
        let info = SearchServiceInfo {
            provider: 0,
            name: Vec::new(),
            url: Vec::new(),
            tags: Vec::new(),
            register_time: 0,
            heat: 0,
        };
        proof {
            assert(info@.tags =~= Seq::<Seq<u8>>::empty());
        }
        info
    }
}

/// The head of a service's audit chain.
#[derive(Debug, PartialEq, Eq)]
pub struct SearchServiceHash {
    pub provider: AccountId,
    pub root_hash: Option<RootHash>,
    pub update_time: Moment,
}

/// The view of a chain head.
pub struct HashView {
    pub provider: AccountId,
    pub root_hash: Option<Seq<u8>>,
    pub update_time: Moment,
}

impl View for SearchServiceHash {
    type V = HashView;

    open spec fn view(&self) -> HashView {
        HashView {
            provider: self.provider,
            root_hash: root_view(self.root_hash),
            update_time: self.update_time,
        }
    }
}

impl Default for SearchServiceHash {
    /// The empty chain head: no owner and no root hash.
    fn default() -> (head: SearchServiceHash)
        ensures
            head@ == (HashView { provider: 0, root_hash: None, update_time: 0 }),
    {
        SearchServiceHash { provider: 0, root_hash: None, update_time: 0 }
    }
}

/// What the registry reports to the host's event sink.
#[derive(Debug, PartialEq, Eq)]
pub enum Event {
    /// The chain advanced at this moment.
    Timestamp(Moment),
    /// A snapshot of recommended services.
    RecommendSsInfo(Vec<SearchServiceInfo>),
    /// The services that carry all the tags asked for.
    GetSsInfoByTags(Vec<SearchServiceInfo>),
    /// The service of the name asked for.
    GetSsInfoByName(SearchServiceInfo),
}

/// The tags of a record as sequences of bytes.
pub open spec fn tags_view(tags: Seq<Tag>) -> Seq<Seq<u8>> {
    Seq::new(tags.len(), |i: int| tags[i]@)
}

/// An optional root hash as an optional sequence of bytes.
pub open spec fn root_view(root: Option<RootHash>) -> Option<Seq<u8>> {
    match root {
        Some(h) => Some(h@),
        None => None,
    }
}

/// A list of records as the sequence of their views.
pub open spec fn services_view(list: Seq<SearchServiceInfo>) -> Seq<ServiceView> {
    Seq::new(list.len(), |i: int| list[i]@)
}

/// A list of chain heads as the sequence of their views.
pub open spec fn hashes_view(list: Seq<SearchServiceHash>) -> Seq<HashView> {
    Seq::new(list.len(), |i: int| list[i]@)
}

} // verus!
