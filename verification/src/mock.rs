//! A staking fixture: the state that staking checks read, held as plain
//! values in a context object that is passed to each check.

use vstd::prelude::*;
use crate::types::AccountId;
use crate::types::Balance;

verus! {

/// The index of an era.
pub type EraIndex = u32;

/// The index of a session.
pub type SessionIndex = u32;

/// The number of a block.
pub type BlockNumber = u64;

/// The constants that a fixture is built with.
#[derive(Clone, Copy, Debug)]
pub struct Constants {
    pub existential_deposit: Balance,
    pub slash_defer_duration: EraIndex,
    pub session_per_era: SessionIndex,
    pub election_lookahead: BlockNumber,
    pub period: BlockNumber,
}

/// The part of a validator's backing that one nominator gives.
#[derive(Clone, Copy, Debug)]
pub struct IndividualExposure {
    pub who: AccountId,
    pub value: Balance,
}

/// What backs a validator in an era.
#[derive(Debug)]
pub struct Exposure {
    pub total: Balance,
    pub own: Balance,
    pub others: Vec<IndividualExposure>,
}

/// A part of a bond that unlocks at an era.
#[derive(Clone, Copy, Debug)]
pub struct UnlockChunk {
    pub value: Balance,
    pub era: EraIndex,
}

/// The ledger of a bonded account.
#[derive(Debug)]
pub struct StakingLedger {
    pub stash: AccountId,
    pub total: Balance,
    pub active: Balance,
    pub unlocking: Vec<UnlockChunk>,
}

/// The fixture. `bonded` maps a stash to its controller and `ledgers` a
/// controller to its ledger; in both the first entry of a key counts.
/// `stakers` holds the exposure of a validator in an era.
#[derive(Debug)]
pub struct Test {
    pub validators: Vec<AccountId>,
    pub disabled: Vec<AccountId>,
    pub bonded: Vec<(AccountId, AccountId)>,
    pub ledgers: Vec<(AccountId, StakingLedger)>,
    pub stakers: Vec<(EraIndex, AccountId, Exposure)>,
    pub nominators: Vec<AccountId>,
    pub active_era: Option<EraIndex>,
    pub constants: Constants,
}

/// The sum of the nominators' parts of an exposure.
pub open spec fn others_total(others: Seq<IndividualExposure>) -> int
    decreases others.len(),
{
    if others.len() == 0 {
        0
    } else {
        others_total(others.drop_last()) + others.last().value
    }
}

/// The sum of the chunks of a ledger that are unlocking.
pub open spec fn unlocking_total(chunks: Seq<UnlockChunk>) -> int
    decreases chunks.len(),
{
    if chunks.len() == 0 {
        0
    } else {
        unlocking_total(chunks.drop_last()) + chunks.last().value
    }
}

/// An exposure's total is the validator's own stake and the nominators'
/// parts together.
pub open spec fn exposure_consistent(expo: Exposure) -> bool {
    expo.total == expo.own + others_total(expo.others@)
}

/// A ledger's total is its active stake and its unlocking chunks together.
pub open spec fn ledger_consistent(ledger: StakingLedger) -> bool {
    ledger.total == ledger.active + unlocking_total(ledger.unlocking@)
}

/// The controller that a stash is bonded to.
pub open spec fn controller_of(bonded: Seq<(AccountId, AccountId)>, stash: AccountId) -> Option<
    AccountId,
>
    decreases bonded.len(),
{
    if bonded.len() == 0 {
        None
    } else if bonded[0].0 == stash {
        Some(bonded[0].1)
    } else {
        controller_of(bonded.drop_first(), stash)
    }
}

/// The ledger that a controller holds.
pub open spec fn ledger_of(ledgers: Seq<(AccountId, StakingLedger)>, controller: AccountId) -> Option<
    StakingLedger,
>
    decreases ledgers.len(),
{
    if ledgers.len() == 0 {
        None
    } else if ledgers[0].0 == controller {
        Some(ledgers[0].1)
    } else {
        ledger_of(ledgers.drop_first(), controller)
    }
}

/// Whether every exposure of the era is consistent.
pub open spec fn era_consistent(stakers: Seq<(EraIndex, AccountId, Exposure)>, era: EraIndex) -> bool {
    forall|i: int|
        0 <= i < stakers.len() && (#[trigger] stakers[i]).0 == era ==> exposure_consistent(
            stakers[i].2,
        )
}

/// What one nominator gives to an exposure.
pub open spec fn backing_from(others: Seq<IndividualExposure>, who: AccountId) -> int
    decreases others.len(),
{
    if others.len() == 0 {
        0
    } else if others.last().who == who {
        backing_from(others.drop_last(), who) + others.last().value
    } else {
        backing_from(others.drop_last(), who)
    }
}

/// The nominators' parts of a validator's exposure in an era; none where
/// the validator has no exposure in it.
pub open spec fn exposure_in(
    stakers: Seq<(EraIndex, AccountId, Exposure)>,
    era: EraIndex,
    validator: AccountId,
) -> Seq<IndividualExposure>
    decreases stakers.len(),
{
    if stakers.len() == 0 {
        Seq::empty()
    } else if stakers[0].0 == era && stakers[0].1 == validator {
        stakers[0].2.others@
    } else {
        exposure_in(stakers.drop_first(), era, validator)
    }
}

/// What a nominator gives, in an era, to all the validators of a list
/// together.
pub open spec fn spent_by(
    stakers: Seq<(EraIndex, AccountId, Exposure)>,
    validators: Seq<AccountId>,
    era: EraIndex,
    stash: AccountId,
) -> int
    decreases validators.len(),
{
    if validators.len() == 0 {
        0
    } else {
        spent_by(stakers, validators.drop_last(), era, stash) + backing_from(
            exposure_in(stakers, era, validators.last()),
            stash,
        )
    }
}

/// The active stake of a stash; nothing where it is not bonded or its
/// controller holds no ledger.
pub open spec fn slashable_balance(test: Test, stash: AccountId) -> int {
    match controller_of(test.bonded@, stash) {
        Some(controller) => match ledger_of(test.ledgers@, controller) {
            Some(ledger) => ledger.active as int,
            None => 0,
        },
        None => 0,
    }
}

/// A nominator is a stash that gives the session's validators no more than
/// its active stake.
pub open spec fn nominator_within_stake(test: Test, era: EraIndex, stash: AccountId) -> bool {
    &&& controller_of(test.bonded@, stash) is Some
    &&& spent_by(test.stakers@, test.validators@, era, stash) <= slashable_balance(test, stash)
}

/// A nominator gives to the first exposures of a list no more than to all.
pub proof fn lemma_backing_prefix(others: Seq<IndividualExposure>, who: AccountId, n: int)
    requires
        0 <= n <= others.len(),
    ensures
        0 <= backing_from(others.subrange(0, n), who) <= backing_from(others, who),
    decreases others.len(),
{
    if others.len() == 0 {
        assert(others.subrange(0, n) =~= others);
    } else if n == others.len() {
        assert(others.subrange(0, n) =~= others);
        lemma_backing_prefix(others.drop_last(), who, n - 1);
        assert(others.drop_last().subrange(0, n - 1) =~= others.drop_last());
    } else {
        lemma_backing_prefix(others.drop_last(), who, n);
        assert(others.drop_last().subrange(0, n) =~= others.subrange(0, n));
    }
}

/// A nominator gives to the first validators of a list no more than to all.
pub proof fn lemma_spent_prefix(
    stakers: Seq<(EraIndex, AccountId, Exposure)>,
    validators: Seq<AccountId>,
    era: EraIndex,
    stash: AccountId,
    n: int,
)
    requires
        0 <= n <= validators.len(),
    ensures
        0 <= spent_by(stakers, validators.subrange(0, n), era, stash) <= spent_by(
            stakers,
            validators,
            era,
            stash,
        ),
    decreases validators.len(),
{
    if validators.len() == 0 {
        assert(validators.subrange(0, n) =~= validators);
    } else {
        let given = exposure_in(stakers, era, validators.last());
        lemma_backing_prefix(given, stash, given.len() as int);
        if n == validators.len() {
            assert(validators.subrange(0, n) =~= validators);
            lemma_spent_prefix(stakers, validators.drop_last(), era, stash, n - 1);
            assert(validators.drop_last().subrange(0, n - 1) =~= validators.drop_last());
        } else {
            lemma_spent_prefix(stakers, validators.drop_last(), era, stash, n);
            assert(validators.drop_last().subrange(0, n) =~= validators.subrange(0, n));
        }
    }
}

/// The session that the list of bonded eras gives for an era. The list is
/// read in order up to the first era that is later than the one asked for.
pub open spec fn bonded_session(bonded_eras: Seq<(EraIndex, SessionIndex)>, era: EraIndex) -> Option<
    SessionIndex,
>
    decreases bonded_eras.len(),
{
    if bonded_eras.len() == 0 {
        None
    } else if bonded_eras[0].0 == era {
        Some(bonded_eras[0].1)
    } else if bonded_eras[0].0 > era {
        None
    } else {
        bonded_session(bonded_eras.drop_first(), era)
    }
}

/// The session at which an offence of an era is slashed: the one that the
/// bonded eras give, else the start of the era if it is the active one.
pub open spec fn offence_session(
    bonded_eras: Seq<(EraIndex, SessionIndex)>,
    active: EraIndex,
    active_start: Option<SessionIndex>,
    era: EraIndex,
) -> Option<SessionIndex> {
    match bonded_session(bonded_eras, era) {
        Some(session) => Some(session),
        None => if active == era {
            active_start
        } else {
            None
        },
    }
}

/// Turns a currency amount into a vote weight.
#[derive(Clone, Copy, Debug)]
pub struct CurrencyToVoteHandler;

impl CurrencyToVoteHandler {
    /// A 64-bit amount is its own weight.
    pub fn convert(x: u64) -> (weight: u64)
        ensures
            weight == x,
    {
        x
    }

    /// A wider amount is cut at the largest 64-bit weight.
    pub fn convert_wide(x: u128) -> (weight: u64)
        ensures
            weight == if x > u64::MAX {
                u64::MAX as int
            } else {
                x as int
            },
    {
        if x > 0xffff_ffff_ffff_ffff {
            0xffff_ffff_ffff_ffff
        } else {
            x as u64
        }
    }
}

/// Names account 11 as the author of every block.
#[derive(Clone, Copy, Debug)]
pub struct Author11;

impl Author11 {
    /// The author of a block, whatever its digests are.
    pub fn find_author() -> (author: Option<u64>)
        ensures
            author == Some(11u64),
    {
        Some(11)
    }
}

/// Records in the fixture what a session hands to its handlers.
#[derive(Clone, Copy, Debug)]
pub struct OtherSessionHandler;

impl OtherSessionHandler {
    /// A new session starts with the given validators and nobody disabled.
    pub fn on_new_session(test: &mut Test, validators: Vec<AccountId>)
        ensures
            final(test).validators@ == validators@,
            final(test).disabled@ == Seq::<AccountId>::empty(),
            final(test).bonded == old(test).bonded,
            final(test).ledgers == old(test).ledgers,
            final(test).stakers == old(test).stakers,
            final(test).nominators == old(test).nominators,
            final(test).active_era == old(test).active_era,
            final(test).constants == old(test).constants,
    {
        test.validators = validators;
        test.disabled = Vec::new();
    }

    /// Disables the validator at an index of the session's validators.
    pub fn on_disabled(test: &mut Test, validator_index: usize)
        requires
            validator_index < old(test).validators@.len(),
        ensures
            final(test).disabled@ == old(test).disabled@.push(
                old(test).validators@[validator_index as int],
            ),
            final(test).validators == old(test).validators,
            final(test).bonded == old(test).bonded,
            final(test).ledgers == old(test).ledgers,
            final(test).stakers == old(test).stakers,
            final(test).nominators == old(test).nominators,
            final(test).active_era == old(test).active_era,
            final(test).constants == old(test).constants,
    {
        let value = test.validators[validator_index];
        test.disabled.push(value);
    }
}

impl Test {
    /// A fixture without validators, bonds, ledgers or exposures, with
    /// eras of three sessions and sessions of one block.
    pub fn new() -> (test: Test)
        ensures
            test.validators@.len() == 0,
            test.disabled@.len() == 0,
            test.bonded@.len() == 0,
            test.ledgers@.len() == 0,
            test.stakers@.len() == 0,
            test.nominators@.len() == 0,
            test.active_era is None,
            test.constants == (Constants {
                existential_deposit: 0,
                slash_defer_duration: 0,
                session_per_era: 3,
                election_lookahead: 0,
                period: 1,
            }),
    {
        Test {
            validators: Vec::new(),
            disabled: Vec::new(),
            bonded: Vec::new(),
            ledgers: Vec::new(),
            stakers: Vec::new(),
            nominators: Vec::new(),
            active_era: None,
            constants: Constants {
                existential_deposit: 0,
                slash_defer_duration: 0,
                session_per_era: 3,
                election_lookahead: 0,
                period: 1,
            },
        }
    }

    /// The controller that a stash is bonded to.
    pub fn bonded(&self, stash: AccountId) -> (controller: Option<AccountId>)
        ensures
            controller == controller_of(self.bonded@, stash),
    {
        let mut i: usize = 0;
        proof {
            assert(self.bonded@.subrange(0, self.bonded@.len() as int) =~= self.bonded@);
        }
        while i < self.bonded.len()
            invariant
                i <= self.bonded.len(),
                controller_of(self.bonded@, stash) == controller_of(
                    self.bonded@.subrange(i as int, self.bonded@.len() as int),
                    stash,
                ),
            decreases self.bonded.len() - i,
        {
            proof {
                let rest = self.bonded@.subrange(i as int, self.bonded@.len() as int);
                assert(rest[0] == self.bonded@[i as int]);
                assert(rest.drop_first() =~= self.bonded@.subrange(
                    i + 1,
                    self.bonded@.len() as int,
                ));
            }
            if self.bonded[i].0 == stash {
                return Some(self.bonded[i].1);
            }
            i += 1;
        }
        None
    }

    /// The ledger that a controller holds.
    pub fn ledger(&self, controller: AccountId) -> (ledger: Option<&StakingLedger>)
        ensures
            match ledger {
                Some(l) => ledger_of(self.ledgers@, controller) == Some(*l),
                None => ledger_of(self.ledgers@, controller) is None,
            },
    {
        let mut i: usize = 0;
        proof {
            assert(self.ledgers@.subrange(0, self.ledgers@.len() as int) =~= self.ledgers@);
        }
        while i < self.ledgers.len()
            invariant
                i <= self.ledgers.len(),
                ledger_of(self.ledgers@, controller) == ledger_of(
                    self.ledgers@.subrange(i as int, self.ledgers@.len() as int),
                    controller,
                ),
            decreases self.ledgers.len() - i,
        {
            proof {
                let rest = self.ledgers@.subrange(i as int, self.ledgers@.len() as int);
                assert(rest[0] == self.ledgers@[i as int]);
                assert(rest.drop_first() =~= self.ledgers@.subrange(
                    i + 1,
                    self.ledgers@.len() as int,
                ));
            }
            if self.ledgers[i].0 == controller {
                return Some(&self.ledgers[i].1);
            }
            i += 1;
        }
        None
    }

    /// The exposure of a validator in an era.
    pub fn eras_stakers(&self, era: EraIndex, validator: AccountId) -> (expo: Option<&Exposure>)
        ensures
            match expo {
                Some(e) => exposure_in(self.stakers@, era, validator) == e.others@,
                None => exposure_in(self.stakers@, era, validator) == Seq::<
                    IndividualExposure,
                >::empty(),
            },
    {
        let mut i: usize = 0;
        proof {
            assert(self.stakers@.subrange(0, self.stakers@.len() as int) =~= self.stakers@);
        }
        while i < self.stakers.len()
            invariant
                i <= self.stakers.len(),
                exposure_in(self.stakers@, era, validator) == exposure_in(
                    self.stakers@.subrange(i as int, self.stakers@.len() as int),
                    era,
                    validator,
                ),
            decreases self.stakers.len() - i,
        {
            proof {
                let rest = self.stakers@.subrange(i as int, self.stakers@.len() as int);
                assert(rest[0] == self.stakers@[i as int]);
                assert(rest.drop_first() =~= self.stakers@.subrange(
                    i + 1,
                    self.stakers@.len() as int,
                ));
            }
            if self.stakers[i].0 == era && self.stakers[i].1 == validator {
                return Some(&self.stakers[i].2);
            }
            i += 1;
        }
        None
    }

    /// The active stake of a stash.
    pub fn slashable_balance_of(&self, stash: AccountId) -> (stake: Balance)
        ensures
            stake == slashable_balance(*self, stash),
    {
        match self.bonded(stash) {
            Some(controller) => match self.ledger(controller) {
                Some(ledger) => ledger.active,
                None => 0,
            },
            None => 0,
        }
    }
}

/// What one nominator gives to an exposure, as long as it is no more than
/// `room`.
pub fn backing_within(others: &Vec<IndividualExposure>, who: AccountId, room: Balance) -> (given:
    Option<Balance>)
    ensures
        match given {
            Some(sum) => sum == backing_from(others@, who) && sum <= room,
            None => backing_from(others@, who) > room,
        },
{
    let mut sum: u64 = 0;
    let mut i: usize = 0;
    while i < others.len()
        invariant
            i <= others.len(),
            sum == backing_from(others@.subrange(0, i as int), who),
            sum <= room,
        decreases others.len() - i,
    {
        proof {
            assert(others@.subrange(0, i + 1).drop_last() =~= others@.subrange(0, i as int));
            lemma_backing_prefix(others@, who, i + 1);
        }
        if others[i].who == who {
            if others[i].value > room - sum {
                return None;
            }
            sum = sum + others[i].value;
        }
        i += 1;
    }
    proof {
        assert(others@.subrange(0, others@.len() as int) =~= others@);
    }
    Some(sum)
}

/// Whether the stash of a controller is disabled in the session.
pub fn is_disabled(test: &Test, controller: AccountId) -> (disabled: bool)
    requires
        ledger_of(test.ledgers@, controller) is Some,
    ensures
        disabled == test.disabled@.contains(ledger_of(test.ledgers@, controller).unwrap().stash),
{
    let stash = match test.ledger(controller) {
        Some(ledger) => ledger.stash,
        None => 0,
    };
    let mut i: usize = 0;
    while i < test.disabled.len()
        invariant
            i <= test.disabled.len(),
            ledger_of(test.ledgers@, controller) is Some,
            stash == ledger_of(test.ledgers@, controller).unwrap().stash,
            forall|k: int| 0 <= k < i ==> test.disabled@[k] != stash,
        decreases test.disabled.len() - i,
    {
        if test.disabled[i] == stash {
            assert(test.disabled@[i as int] == stash);
            return true;
        }
        i += 1;
    }
    false
}

/// The index of the active era.
pub fn active_era(test: &Test) -> (era: EraIndex)
    requires
        test.active_era is Some,
    ensures
        Some(era) == test.active_era,
{
    match test.active_era {
        Some(era) => era,
        None => 0,
    }
}

/// Whether an exposure's total is the validator's own stake and the
/// nominators' parts together.
pub fn check_exposure(expo: &Exposure) -> (consistent: bool)
    ensures
        consistent == exposure_consistent(*expo),
{
    let mut sum: u128 = 0;
    let mut i: usize = 0;
    while i < expo.others.len()
        invariant
            i <= expo.others.len(),
            sum == others_total(expo.others@.subrange(0, i as int)),
            sum <= i * 0xffff_ffff_ffff_ffff,
        decreases expo.others.len() - i,
    {
        proof {
            assert(expo.others@.subrange(0, i + 1).drop_last() =~= expo.others@.subrange(
                0,
                i as int,
            ));
            assert((i + 1) * 0xffff_ffff_ffff_ffff == i * 0xffff_ffff_ffff_ffff
                + 0xffff_ffff_ffff_ffff) by (nonlinear_arith);
            assert(i * 0xffff_ffff_ffff_ffff <= 0xffff_ffff_ffff_ffff * 0xffff_ffff_ffff_ffff)
                by (nonlinear_arith)
                requires
                    0 <= i <= 0xffff_ffff_ffff_ffff,
            ;
        }
        sum = sum + (expo.others[i].value as u128);
        i += 1;
    }
    proof {
        assert(expo.others@.subrange(0, expo.others@.len() as int) =~= expo.others@);
    }
    (expo.total as u128) == (expo.own as u128) + sum
}

/// Whether every exposure of the era is consistent.
pub fn check_exposure_all(test: &Test, era: EraIndex) -> (consistent: bool)
    ensures
        consistent == era_consistent(test.stakers@, era),
{
    let mut i: usize = 0;
    while i < test.stakers.len()
        invariant
            i <= test.stakers.len(),
            forall|k: int|
                0 <= k < i && (#[trigger] test.stakers@[k]).0 == era ==> exposure_consistent(
                    test.stakers@[k].2,
                ),
        decreases test.stakers.len() - i,
    {
        if test.stakers[i].0 == era {
            if !check_exposure(&test.stakers[i].2) {
                return false;
            }
        }
        i += 1;
    }
    true
}

/// Whether the stash is bonded and gives the session's validators, in the
/// era, no more than its active stake.
pub fn check_nominator_exposure(test: &Test, era: EraIndex, stash: AccountId) -> (within: bool)
    ensures
        within == nominator_within_stake(*test, era, stash),
{
    if !assert_is_stash(test, stash) {
        return false;
    }
    let nominator_stake = test.slashable_balance_of(stash);
    let mut sum: u64 = 0;
    let mut i: usize = 0;
    while i < test.validators.len()
        invariant
            i <= test.validators.len(),
            sum == spent_by(test.stakers@, test.validators@.subrange(0, i as int), era, stash),
            sum <= nominator_stake,
            nominator_stake == slashable_balance(*test, stash),
            controller_of(test.bonded@, stash) is Some,
        decreases test.validators.len() - i,
    {
        proof {
            assert(test.validators@.subrange(0, i + 1).drop_last() =~= test.validators@.subrange(
                0,
                i as int,
            ));
            lemma_spent_prefix(test.stakers@, test.validators@, era, stash, i + 1);
        }
        let given = match test.eras_stakers(era, test.validators[i]) {
            Some(expo) => backing_within(&expo.others, stash, nominator_stake - sum),
            None => Some(0),
        };
        match given {
            Some(part) => {
                sum = sum + part;
            },
            None => {
                return false;
            },
        }
        i += 1;
    }
    proof {
        assert(test.validators@.subrange(0, test.validators@.len() as int) =~= test.validators@);
    }
    true
}

/// Whether every nominator of the fixture is within its stake in the era.
pub fn check_nominator_all(test: &Test, era: EraIndex) -> (within: bool)
    ensures
        within == forall|i: int|
            0 <= i < test.nominators@.len() ==> nominator_within_stake(
                *test,
                era,
                #[trigger] test.nominators@[i],
            ),
{
    let mut i: usize = 0;
    while i < test.nominators.len()
        invariant
            i <= test.nominators.len(),
            forall|k: int|
                0 <= k < i ==> nominator_within_stake(*test, era, #[trigger] test.nominators@[k]),
        decreases test.nominators.len() - i,
    {
        if !check_nominator_exposure(test, era, test.nominators[i]) {
            return false;
        }
        i += 1;
    }
    true
}

/// The points that reward every validator of the session alike: one each.
pub fn reward_all_elected(test: &Test) -> (rewards: Vec<(AccountId, u32)>)
    ensures
        rewards@.len() == test.validators@.len(),
        forall|i: int|
            0 <= i < rewards@.len() ==> #[trigger] rewards@[i] == (test.validators@[i], 1u32),
{
    let mut rewards: Vec<(AccountId, u32)> = Vec::new();
    let mut i: usize = 0;
    while i < test.validators.len()
        invariant
            i <= test.validators.len(),
            rewards@.len() == i,
            forall|k: int| 0 <= k < i ==> #[trigger] rewards@[k] == (test.validators@[k], 1u32),
        decreases test.validators.len() - i,
    {
        rewards.push((test.validators[i], 1));
        i += 1;
    }
    rewards
}

/// The session at which an offence of the era is to be slashed, given the
/// bonded eras with their first sessions, the active era and its first
/// session; none where the era cannot be slashed.
pub fn on_offence_in_era(
    bonded_eras: &Vec<(EraIndex, SessionIndex)>,
    active: EraIndex,
    active_start: Option<SessionIndex>,
    era: EraIndex,
) -> (session: Option<SessionIndex>)
    ensures
        session == offence_session(bonded_eras@, active, active_start, era),
{
    let mut i: usize = 0;
    proof {
        assert(bonded_eras@.subrange(0, bonded_eras@.len() as int) =~= bonded_eras@);
    }
    while i < bonded_eras.len()
        invariant
            i <= bonded_eras.len(),
            bonded_session(bonded_eras@, era) == bonded_session(
                bonded_eras@.subrange(i as int, bonded_eras@.len() as int),
                era,
            ),
        decreases bonded_eras.len() - i,
    {
        proof {
            let rest = bonded_eras@.subrange(i as int, bonded_eras@.len() as int);
            assert(rest[0] == bonded_eras@[i as int]);
            assert(rest.drop_first() =~= bonded_eras@.subrange(
                i + 1,
                bonded_eras@.len() as int,
            ));
        }
        if bonded_eras[i].0 == era {
            return Some(bonded_eras[i].1);
        } else if bonded_eras[i].0 > era {
            return if active == era {
                active_start
            } else {
                None
            };
        }
        i += 1;
    }
    if active == era {
        active_start
    } else {
        None
    }
}

/// The session at which an offence of the active era is to be slashed.
pub fn on_offence_now(
    bonded_eras: &Vec<(EraIndex, SessionIndex)>,
    active: EraIndex,
    active_start: Option<SessionIndex>,
) -> (session: Option<SessionIndex>)
    ensures
        session == offence_session(bonded_eras@, active, active_start, active),
{
    on_offence_in_era(bonded_eras, active, active_start, active)
}

/// Whether the account is a stash, that is, bonded to a controller.
pub fn assert_is_stash(test: &Test, acc: AccountId) -> (is_stash: bool)
    ensures
        is_stash == controller_of(test.bonded@, acc) is Some,
{
    test.bonded(acc).is_some()
}

/// Whether the stash is bonded and the ledger of the account just below it,
/// which is its controller in this fixture, is consistent. A stash without
/// such a ledger is not.
pub fn assert_ledger_consistent(test: &Test, stash: AccountId) -> (consistent: bool)
    ensures
        consistent == {
            &&& controller_of(test.bonded@, stash) is Some
            &&& stash >= 1
            &&& ledger_of(test.ledgers@, (stash - 1) as AccountId) matches Some(ledger)
                && ledger_consistent(ledger)
        },
{
    if !assert_is_stash(test, stash) || stash < 1 {
        return false;
    }
    let ledger = match test.ledger(stash - 1) {
        Some(ledger) => ledger,
        None => {
            return false;
        },
    };
    let mut sum: u128 = ledger.active as u128;
    let mut i: usize = 0;
    while i < ledger.unlocking.len()
        invariant
            i <= ledger.unlocking.len(),
            sum == ledger.active + unlocking_total(ledger.unlocking@.subrange(0, i as int)),
            sum <= (i + 1) * 0xffff_ffff_ffff_ffff,
        decreases ledger.unlocking.len() - i,
    {
        proof {
            assert(ledger.unlocking@.subrange(0, i + 1).drop_last()
                =~= ledger.unlocking@.subrange(0, i as int));
            assert((i + 2) * 0xffff_ffff_ffff_ffff == (i + 1) * 0xffff_ffff_ffff_ffff
                + 0xffff_ffff_ffff_ffff) by (nonlinear_arith);
            assert((i + 1) * 0xffff_ffff_ffff_ffff <= 0xffff_ffff_ffff_ffff
                * 0xffff_ffff_ffff_ffff) by (nonlinear_arith)
                requires
                    0 <= i < 0xffff_ffff_ffff_ffff,
            ;
        }
        sum = sum + (ledger.unlocking[i].value as u128);
        i += 1;
    }
    proof {
        assert(ledger.unlocking@.subrange(0, ledger.unlocking@.len() as int)
            =~= ledger.unlocking@);
    }
    sum == ledger.total as u128
}

/// The controllers of the session's validators, in the validators' order.
pub fn validator_controllers(test: &Test) -> (controllers: Vec<AccountId>)
    requires
        forall|i: int|
            0 <= i < test.validators@.len() ==> controller_of(
                test.bonded@,
                #[trigger] test.validators@[i],
            ) is Some,
    ensures
        controllers@.len() == test.validators@.len(),
        forall|i: int|
            0 <= i < test.validators@.len() ==> Some(#[trigger] controllers@[i]) == controller_of(
                test.bonded@,
                test.validators@[i],
            ),
{
    let mut controllers: Vec<AccountId> = Vec::new();
    let mut i: usize = 0;
    while i < test.validators.len()
        invariant
            i <= test.validators.len(),
            controllers@.len() == i,
            forall|k: int|
                0 <= k < test.validators@.len() ==> controller_of(
                    test.bonded@,
                    #[trigger] test.validators@[k],
                ) is Some,
            forall|k: int|
                0 <= k < i ==> Some(#[trigger] controllers@[k]) == controller_of(
                    test.bonded@,
                    test.validators@[k],
                ),
        decreases test.validators.len() - i,
    {
        match test.bonded(test.validators[i]) {
            Some(controller) => {
                controllers.push(controller);
            },
            None => {
                assert(controller_of(test.bonded@, test.validators@[i as int]) is Some);
            },
        }
        i += 1;
    }
    controllers
}

} // verus!
