//! The builder of a staking fixture's starting state: balances, stakers and
//! session keys as plain values, and the constants that the fixture's checks
//! read.

use vstd::prelude::*;
use crate::types::AccountId;
use crate::types::Balance;
use crate::mock::EraIndex;
use crate::mock::Test;
use crate::mock::Constants;
use crate::mock::SessionIndex;
use crate::mock::BlockNumber;

verus! {

/// The timestamp that every fixture starts at.
pub const INIT_TIMESTAMP: u64 = 30_000;

/// The role that a staker starts in.
#[derive(Debug)]
pub enum StakerStatus {
    Idle,
    Validator,
    Nominator(Vec<AccountId>),
}

/// The view of a staker's role.
pub enum StatusView {
    Idle,
    Validator,
    Nominator(Seq<AccountId>),
}

impl View for StakerStatus {
    type V = StatusView;

    open spec fn view(&self) -> StatusView {
        match self {
            StakerStatus::Idle => StatusView::Idle,
            StakerStatus::Validator => StatusView::Validator,
            StakerStatus::Nominator(targets) => StatusView::Nominator(targets@),
        }
    }
}

/// A staker of the starting state.
#[derive(Debug)]
pub struct GenesisStaker {
    pub stash: AccountId,
    pub controller: AccountId,
    pub stake: Balance,
    pub status: StakerStatus,
}

/// The view of a staker: stash, controller, stake and role.
pub open spec fn staker_view(staker: GenesisStaker) -> (AccountId, AccountId, Balance, StatusView) {
    (staker.stash, staker.controller, staker.stake, staker.status@)
}

/// The views of a list of stakers.
pub open spec fn stakers_view(stakers: Seq<GenesisStaker>) -> Seq<
    (AccountId, AccountId, Balance, StatusView),
> {
    Seq::new(stakers.len(), |i: int| staker_view(stakers[i]))
}

/// The starting state that a builder describes.
#[derive(Debug)]
pub struct Genesis {
    pub balances: Vec<(AccountId, Balance)>,
    pub stakers: Vec<GenesisStaker>,
    pub validator_count: u32,
    pub minimum_validator_count: u32,
    pub invulnerables: Vec<AccountId>,
    pub slash_reward_percent: u32,
    pub session_keys: Vec<AccountId>,
    pub timestamp: u64,
}

/// The description of a fixture's starting state.
#[derive(Debug)]
pub struct ExtBuilder {
    pub session_length: BlockNumber,
    pub election_lookahead: BlockNumber,
    pub session_per_era: SessionIndex,
    pub existential_deposit: Balance,
    pub validator_pool: bool,
    pub nominate: bool,
    pub validator_count: u32,
    pub minimum_validator_count: u32,
    pub slash_defer_duration: EraIndex,
    pub fair: bool,
    pub num_validators: Option<u32>,
    pub invulnerables: Vec<AccountId>,
    pub has_stakers: bool,
}

impl Default for ExtBuilder {
    fn default() -> (builder: ExtBuilder)
        ensures
            builder.session_length == 1,
            builder.election_lookahead == 0,
            builder.session_per_era == 3,
            builder.existential_deposit == 1,
            !builder.validator_pool,
            builder.nominate,
            builder.validator_count == 2,
            builder.minimum_validator_count == 0,
            builder.slash_defer_duration == 0,
            builder.fair,
            builder.num_validators is None,
            builder.invulnerables@ == Seq::<AccountId>::empty(),
            builder.has_stakers,
    {
        ExtBuilder {
            session_length: 1,
            election_lookahead: 0,
            session_per_era: 3,
            existential_deposit: 1,
            validator_pool: false,
            nominate: true,
            validator_count: 2,
            minimum_validator_count: 0,
            slash_defer_duration: 0,
            fair: true,
            num_validators: None,
            invulnerables: Vec::new(),
            has_stakers: true,
        }
    }
}

/// The balances that every fixture starts with, for a balance factor.
pub open spec fn genesis_balances(factor: Balance) -> Seq<(AccountId, int)> {
    seq![
        (1, 10 * factor),
        (2, 20 * factor),
        (3, 300 * factor),
        (4, 400 * factor),
        (10, factor as int),
        (11, factor * 1000),
        (20, factor as int),
        (21, factor * 2000),
        (30, factor as int),
        (31, factor * 2000),
        (40, factor as int),
        (41, factor * 2000),
        (100, 2000 * factor),
        (101, 2000 * factor),
        (999, 1_000_000_000_000),
    ]
}

/// The session key of the validator at a position: 11, 21, 31 and so on.
pub open spec fn session_key(at: int) -> int {
    (at + 1) * 10 + 1
}

impl ExtBuilder {
    /// The factor that scales the balances: 256 where the existential
    /// deposit is more than one unit, else 1.
    pub open spec fn balance_factor(self) -> Balance {
        if self.existential_deposit > 1 {
            256
        } else {
            1
        }
    }

    /// The number of validators that get session keys.
    pub open spec fn keyed_validators(self) -> u32 {
        match self.num_validators {
            Some(n) => n,
            None => self.validator_count,
        }
    }

    /// The stakers of the starting state: four validators' stashes and one
    /// nominator, or nobody where the builder has no stakers.
    pub open spec fn genesis_stakers(self) -> Seq<(AccountId, AccountId, Balance, StatusView)> {
        if self.has_stakers {
            let factor = self.balance_factor();
            seq![
                (11, 10, (factor * 1000) as Balance, StatusView::Validator),
                (
                    21,
                    20,
                    if self.fair {
                        1000
                    } else {
                        2000
                    },
                    StatusView::Validator,
                ),
                (
                    31,
                    30,
                    if self.validator_pool {
                        (factor * 1000) as Balance
                    } else {
                        1
                    },
                    StatusView::Validator,
                ),
                (
                    41,
                    40,
                    (factor * 1000) as Balance,
                    if self.validator_pool {
                        StatusView::Validator
                    } else {
                        StatusView::Idle
                    },
                ),
                (
                    101,
                    100,
                    (factor * 500) as Balance,
                    StatusView::Nominator(
                        if self.nominate {
                            seq![11, 21]
                        } else {
                            Seq::empty()
                        },
                    ),
                ),
            ]
        } else {
            Seq::empty()
        }
    }

    /// Sets the smallest balance that keeps an account alive.
    pub fn existential_deposit(self, existential_deposit: u64) -> (builder: ExtBuilder)
        ensures
            builder == (ExtBuilder { existential_deposit, ..self }),
    {
        let mut builder = self;
        builder.existential_deposit = existential_deposit;
        builder
    }

    /// Says whether the stashes 31 and 41 start as well-staked validators.
    pub fn validator_pool(self, validator_pool: bool) -> (builder: ExtBuilder)
        ensures
            builder == (ExtBuilder { validator_pool, ..self }),
    {
        let mut builder = self;
        builder.validator_pool = validator_pool;
        builder
    }

    /// Says whether the nominator starts with nominations.
    pub fn nominate(self, nominate: bool) -> (builder: ExtBuilder)
        ensures
            builder == (ExtBuilder { nominate, ..self }),
    {
        let mut builder = self;
        builder.nominate = nominate;
        builder
    }

    /// Sets the number of validators to elect.
    pub fn validator_count(self, count: u32) -> (builder: ExtBuilder)
        ensures
            builder == (ExtBuilder { validator_count: count, ..self }),
    {
        let mut builder = self;
        builder.validator_count = count;
        builder
    }

    /// Sets the least number of validators to elect.
    pub fn minimum_validator_count(self, count: u32) -> (builder: ExtBuilder)
        ensures
            builder == (ExtBuilder { minimum_validator_count: count, ..self }),
    {
        let mut builder = self;
        builder.minimum_validator_count = count;
        builder
    }

    /// Sets the number of eras by which a slash is deferred.
    pub fn slash_defer_duration(self, eras: EraIndex) -> (builder: ExtBuilder)
        ensures
            builder == (ExtBuilder { slash_defer_duration: eras, ..self }),
    {
        let mut builder = self;
        builder.slash_defer_duration = eras;
        builder
    }

    /// Says whether the first two validators start with the same stake.
    pub fn fair(self, is_fair: bool) -> (builder: ExtBuilder)
        ensures
            builder == (ExtBuilder { fair: is_fair, ..self }),
    {
        let mut builder = self;
        builder.fair = is_fair;
        builder
    }

    /// Sets the number of validators that get session keys.
    pub fn num_validators(self, num_validators: u32) -> (builder: ExtBuilder)
        ensures
            builder == (ExtBuilder { num_validators: Some(num_validators), ..self }),
    {
        let mut builder = self;
        builder.num_validators = Some(num_validators);
        builder
    }

    /// Sets the accounts that are never slashed.
    pub fn invulnerables(self, invulnerables: Vec<u64>) -> (builder: ExtBuilder)
        ensures
            builder == (ExtBuilder { invulnerables, ..self }),
    {
        let mut builder = self;
        builder.invulnerables = invulnerables;
        builder
    }

    /// Sets the number of sessions in an era.
    pub fn session_per_era(self, length: SessionIndex) -> (builder: ExtBuilder)
        ensures
            builder == (ExtBuilder { session_per_era: length, ..self }),
    {
        let mut builder = self;
        builder.session_per_era = length;
        builder
    }

    /// Sets the number of blocks before a session's end at which the election opens.
    pub fn election_lookahead(self, look: BlockNumber) -> (builder: ExtBuilder)
        ensures
            builder == (ExtBuilder { election_lookahead: look, ..self }),
    {
        let mut builder = self;
        builder.election_lookahead = look;
        builder
    }

    /// Sets the number of blocks in a session.
    pub fn session_length(self, length: BlockNumber) -> (builder: ExtBuilder)
        ensures
            builder == (ExtBuilder { session_length: length, ..self }),
    {
        let mut builder = self;
        builder.session_length = length;
        builder
    }

    /// Says whether the starting state has stakers at all.
    pub fn has_stakers(self, has: bool) -> (builder: ExtBuilder)
        ensures
            builder == (ExtBuilder { has_stakers: has, ..self }),
    {
        let mut builder = self;
        builder.has_stakers = has;
        builder
    }

    /// The setting for an election that is computed off the chain: eras of
    /// four sessions, sessions of five blocks, a lookahead of three.
    pub fn offchain_phragmen_ext(self) -> (builder: ExtBuilder)
        ensures
            builder == (ExtBuilder {
                session_per_era: 4,
                session_length: 5,
                election_lookahead: 3,
                ..self
            }),
    {
        self.session_per_era(4).session_length(5).election_lookahead(3)
    }

    /// Writes the builder's constants into a fixture and leaves the rest of
    /// the fixture as it is.
    pub fn set_associated_constants(&self, test: &mut Test)
        ensures
            final(test).constants == (Constants {
                existential_deposit: self.existential_deposit,
                slash_defer_duration: self.slash_defer_duration,
                session_per_era: self.session_per_era,
                election_lookahead: self.election_lookahead,
                period: self.session_length,
            }),
            final(test).validators == old(test).validators,
            final(test).disabled == old(test).disabled,
            final(test).bonded == old(test).bonded,
            final(test).ledgers == old(test).ledgers,
            final(test).stakers == old(test).stakers,
            final(test).nominators == old(test).nominators,
            final(test).active_era == old(test).active_era,
    {
        test.constants = Constants {
            existential_deposit: self.existential_deposit,
            slash_defer_duration: self.slash_defer_duration,
            session_per_era: self.session_per_era,
            election_lookahead: self.election_lookahead,
            period: self.session_length,
        };
    }

    /// The starting state: fifteen balances scaled by the balance factor,
    /// the stakers, one session key for each validator, the counts and the
    /// invulnerables as the builder has them, a slash reward of ten percent
    /// and the initial timestamp.
    pub fn build(self) -> (genesis: Genesis)
        ensures
            genesis.balances@.len() == 15,
            forall|i: int|
                0 <= i < 15 ==> (#[trigger] genesis.balances@[i]).0 == genesis_balances(
                    self.balance_factor(),
                )[i].0 && genesis.balances@[i].1 == genesis_balances(self.balance_factor())[i].1,
            stakers_view(genesis.stakers@) == self.genesis_stakers(),
            genesis.validator_count == self.validator_count,
            genesis.minimum_validator_count == self.minimum_validator_count,
            genesis.invulnerables == self.invulnerables,
            genesis.slash_reward_percent == 10,
            genesis.session_keys@.len() == self.keyed_validators(),
            forall|i: int|
                0 <= i < genesis.session_keys@.len() ==> #[trigger] genesis.session_keys@[i]
                    == session_key(i),
            genesis.timestamp == INIT_TIMESTAMP,
    {
        let balance_factor: u64 = if self.existential_deposit > 1 {
            256
        } else {
            1
        };
        let num_validators: u32 = match self.num_validators {
            Some(n) => n,
            None => self.validator_count,
        };
        let mut session_keys: Vec<AccountId> = Vec::new();
        let mut x: u32 = 0;
        while x < num_validators
            invariant
                x <= num_validators,
                session_keys@.len() == x,
                forall|i: int| 0 <= i < x ==> #[trigger] session_keys@[i] == session_key(i),
            decreases num_validators - x,
        {
            session_keys.push((x as u64 + 1) * 10 + 1);
            x += 1;
        }
        let mut balances: Vec<(AccountId, Balance)> = Vec::new();
        balances.push((1, 10 * balance_factor));
        balances.push((2, 20 * balance_factor));
        balances.push((3, 300 * balance_factor));
        balances.push((4, 400 * balance_factor));
        balances.push((10, balance_factor));
        balances.push((11, balance_factor * 1000));
        balances.push((20, balance_factor));
        balances.push((21, balance_factor * 2000));
        balances.push((30, balance_factor));
        balances.push((31, balance_factor * 2000));
        balances.push((40, balance_factor));
        balances.push((41, balance_factor * 2000));
        balances.push((100, 2000 * balance_factor));
        balances.push((101, 2000 * balance_factor));
        balances.push((999, 1_000_000_000_000));
        let mut stakers: Vec<GenesisStaker> = Vec::new();
        if self.has_stakers {
            let stake_21: u64 = if self.fair {
                1000
            } else {
                2000
            };
            let stake_31: u64 = if self.validator_pool {
                balance_factor * 1000
            } else {
                1
            };
            let status_41 = if self.validator_pool {
                StakerStatus::Validator
            } else {
                StakerStatus::Idle
            };
            let mut nominated: Vec<AccountId> = Vec::new();
            if self.nominate {
                nominated.push(11);
                nominated.push(21);
            }
            proof {
                if self.nominate {
                    assert(nominated@ =~= seq![11, 21]);
                } else {
                    assert(nominated@ =~= Seq::<AccountId>::empty());
                }
            }
            stakers.push(
                GenesisStaker {
                    stash: 11,
                    controller: 10,
                    stake: balance_factor * 1000,
                    status: StakerStatus::Validator,
                },
            );
            stakers.push(
                GenesisStaker {
                    stash: 21,
                    controller: 20,
                    stake: stake_21,
                    status: StakerStatus::Validator,
                },
            );
            stakers.push(
                GenesisStaker {
                    stash: 31,
                    controller: 30,
                    stake: stake_31,
                    status: StakerStatus::Validator,
                },
            );
            stakers.push(
                GenesisStaker {
                    stash: 41,
                    controller: 40,
                    stake: balance_factor * 1000,
                    status: status_41,
                },
            );
            stakers.push(
                GenesisStaker {
                    stash: 101,
                    controller: 100,
                    stake: balance_factor * 500,
                    status: StakerStatus::Nominator(nominated),
                },
            );
        }
        proof {
            assert(stakers_view(stakers@) =~= self.genesis_stakers());
        }
        Genesis {
            balances,
            stakers,
            validator_count: self.validator_count,
            minimum_validator_count: self.minimum_validator_count,
            invulnerables: self.invulnerables,
            slash_reward_percent: 10,
            session_keys,
            timestamp: INIT_TIMESTAMP,
        }
    }
}

/// The smallest balance that keeps an account alive.
#[derive(Clone, Copy, Debug)]
pub struct ExistentialDeposit;

impl ExistentialDeposit {
    /// The fixture's existential deposit.
    pub fn get(test: &Test) -> (value: u64)
        ensures
            value == test.constants.existential_deposit,
    {
        test.constants.existential_deposit
    }
}

/// The number of sessions in an era.
#[derive(Clone, Copy, Debug)]
pub struct SessionsPerEra;

impl SessionsPerEra {
    /// The fixture's number of sessions in an era.
    pub fn get(test: &Test) -> (value: SessionIndex)
        ensures
            value == test.constants.session_per_era,
    {
        test.constants.session_per_era
    }
}

/// The number of blocks before a session's end at which the election opens.
#[derive(Clone, Copy, Debug)]
pub struct ElectionLookahead;

impl ElectionLookahead {
    /// The fixture's election lookahead.
    pub fn get(test: &Test) -> (value: BlockNumber)
        ensures
            value == test.constants.election_lookahead,
    {
        test.constants.election_lookahead
    }
}

/// The number of blocks in a session.
#[derive(Clone, Copy, Debug)]
pub struct Period;

impl Period {
    /// The fixture's session length.
    pub fn get(test: &Test) -> (value: BlockNumber)
        ensures
            value == test.constants.period,
    {
        test.constants.period
    }
}

/// The number of eras by which a slash is deferred.
#[derive(Clone, Copy, Debug)]
pub struct SlashDeferDuration;

impl SlashDeferDuration {
    /// The fixture's slash deferral.
    pub fn get(test: &Test) -> (value: EraIndex)
        ensures
            value == test.constants.slash_defer_duration,
    {
        test.constants.slash_defer_duration
    }
}

} // verus!
