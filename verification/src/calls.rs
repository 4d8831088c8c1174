//! The calls that a fixture hands to the staking module: bonding accounts,
//! and paying out the rewards of an era.

use vstd::prelude::*;
use crate::types::AccountId;
use crate::types::Balance;
use crate::mock::EraIndex;
use crate::mock::Test;
use crate::mock::IndividualExposure;
use crate::mock::controller_of;
use crate::mock::exposure_in;

verus! {

/// Where the rewards of a bond go.
#[derive(Clone, Copy, Debug, PartialEq, Eq, Structural)]
pub enum RewardDestination {
    Staked,
    Stash,
    Controller,
}

/// A call to the balances or the staking module.
#[derive(Debug, PartialEq, Eq)]
pub enum Call {
    /// The balance of an account is set.
    MakeFreeBalanceBe { who: AccountId, value: Balance },
    /// A stash bonds a value under a controller.
    Bond { stash: AccountId, controller: AccountId, value: Balance, payee: RewardDestination },
    /// A controller declares its stash a validator, with default preferences.
    Validate { controller: AccountId },
    /// A controller nominates targets.
    Nominate { controller: AccountId, targets: Vec<AccountId> },
    /// A nominator's controller claims its rewards of an era: for each
    /// validator the position of the nominator in the validator's exposure.
    PayoutNominator { controller: AccountId, era: EraIndex, validators: Vec<(AccountId, usize)> },
    /// A validator's controller claims its reward of an era.
    PayoutValidator { controller: AccountId, era: EraIndex },
}

/// The view of a call.
pub enum CallView {
    MakeFreeBalanceBe { who: AccountId, value: Balance },
    Bond { stash: AccountId, controller: AccountId, value: Balance, payee: RewardDestination },
    Validate { controller: AccountId },
    Nominate { controller: AccountId, targets: Seq<AccountId> },
    PayoutNominator { controller: AccountId, era: EraIndex, validators: Seq<(AccountId, usize)> },
    PayoutValidator { controller: AccountId, era: EraIndex },
}

impl View for Call {
    type V = CallView;

    open spec fn view(&self) -> CallView {
        match self {
            Call::MakeFreeBalanceBe { who, value } => CallView::MakeFreeBalanceBe {
                who: *who,
                value: *value,
            },
            Call::Bond { stash, controller, value, payee } => CallView::Bond {
                stash: *stash,
                controller: *controller,
                value: *value,
                payee: *payee,
            },
            Call::Validate { controller } => CallView::Validate { controller: *controller },
            Call::Nominate { controller, targets } => CallView::Nominate {
                controller: *controller,
                targets: targets@,
            },
            Call::PayoutNominator { controller, era, validators } => CallView::PayoutNominator {
                controller: *controller,
                era: *era,
                validators: validators@,
            },
            Call::PayoutValidator { controller, era } => CallView::PayoutValidator {
                controller: *controller,
                era: *era,
            },
        }
    }
}

/// The views of a list of calls.
pub open spec fn calls_view(calls: Seq<Call>) -> Seq<CallView> {
    Seq::new(calls.len(), |i: int| calls[i]@)
}

/// The calls that make a stash a validator: it gets the value as balance,
/// bonds all of it under the controller, and the controller validates.
pub fn bond_validator(stash: u64, ctrl: u64, val: u64) -> (calls: Vec<Call>)
    ensures
        calls_view(calls@) == seq![
            CallView::MakeFreeBalanceBe { who: stash, value: val },
            CallView::Bond {
                stash,
                controller: ctrl,
                value: val,
                payee: RewardDestination::Controller,
            },
            CallView::Validate { controller: ctrl },
        ],
{
    let mut calls: Vec<Call> = Vec::new();
    calls.push(Call::MakeFreeBalanceBe { who: stash, value: val });
    calls.push(
        Call::Bond { stash, controller: ctrl, value: val, payee: RewardDestination::Controller },
    );
    calls.push(Call::Validate { controller: ctrl });
    proof {
        assert(calls_view(calls@) =~= seq![
            CallView::MakeFreeBalanceBe { who: stash, value: val },
            CallView::Bond {
                stash,
                controller: ctrl,
                value: val,
                payee: RewardDestination::Controller,
            },
            CallView::Validate { controller: ctrl },
        ]);
    }
    calls
}

/// The calls that make a stash a nominator of the targets: it gets the
/// value as balance, bonds all of it under the controller, and the
/// controller nominates.
pub fn bond_nominator(stash: u64, ctrl: u64, val: u64, target: Vec<u64>) -> (calls: Vec<Call>)
    ensures
        calls_view(calls@) == seq![
            CallView::MakeFreeBalanceBe { who: stash, value: val },
            CallView::Bond {
                stash,
                controller: ctrl,
                value: val,
                payee: RewardDestination::Controller,
            },
            CallView::Nominate { controller: ctrl, targets: target@ },
        ],
{
    let ghost targets = target@;
    let mut calls: Vec<Call> = Vec::new();
    calls.push(Call::MakeFreeBalanceBe { who: stash, value: val });
    calls.push(
        Call::Bond { stash, controller: ctrl, value: val, payee: RewardDestination::Controller },
    );
    calls.push(Call::Nominate { controller: ctrl, targets: target });
    proof {
        assert(calls_view(calls@) =~= seq![
            CallView::MakeFreeBalanceBe { who: stash, value: val },
            CallView::Bond {
                stash,
                controller: ctrl,
                value: val,
                payee: RewardDestination::Controller,
            },
            CallView::Nominate { controller: ctrl, targets },
        ]);
    }
    calls
}

/// A claim: a nominator's controller, a validator, and the nominator's
/// position in the validator's exposure.
pub type Claim = (AccountId, AccountId, usize);

/// The claims on one validator: one for each nominator of its exposure
/// that is bonded, in the exposure's order.
pub open spec fn exposure_claims(
    bonded: Seq<(AccountId, AccountId)>,
    validator: AccountId,
    others: Seq<IndividualExposure>,
) -> Seq<Claim>
    decreases others.len(),
{
    if others.len() == 0 {
        Seq::empty()
    } else {
        let rest = exposure_claims(bonded, validator, others.drop_last());
        match controller_of(bonded, others.last().who) {
            Some(controller) => rest.push((controller, validator, (others.len() - 1) as usize)),
            None => rest,
        }
    }
}

/// The claims on all the rewarded validators of an era, validator by
/// validator.
pub open spec fn all_claims(test: Test, era: EraIndex, rewarded: Seq<AccountId>) -> Seq<Claim>
    decreases rewarded.len(),
{
    if rewarded.len() == 0 {
        Seq::empty()
    } else {
        all_claims(test, era, rewarded.drop_last()) + exposure_claims(
            test.bonded@,
            rewarded.last(),
            exposure_in(test.stakers@, era, rewarded.last()),
        )
    }
}

/// The controllers that hold a claim, each once, in the order in which
/// they first occur.
pub open spec fn claimants(claims: Seq<Claim>) -> Seq<AccountId>
    decreases claims.len(),
{
    if claims.len() == 0 {
        Seq::empty()
    } else {
        let rest = claimants(claims.drop_last());
        if rest.contains(claims.last().0) {
            rest
        } else {
            rest.push(claims.last().0)
        }
    }
}

/// What one controller claims: validators and positions, in the claims'
/// order.
pub open spec fn claims_of(claims: Seq<Claim>, controller: AccountId) -> Seq<(AccountId, usize)>
    decreases claims.len(),
{
    if claims.len() == 0 {
        Seq::empty()
    } else {
        let rest = claims_of(claims.drop_last(), controller);
        if claims.last().0 == controller {
            rest.push((claims.last().1, claims.last().2))
        } else {
            rest
        }
    }
}

/// One payout call for each controller that holds a claim.
pub open spec fn nominator_payouts(claims: Seq<Claim>, era: EraIndex) -> Seq<CallView> {
    Seq::new(
        claimants(claims).len(),
        |i: int|
            CallView::PayoutNominator {
                controller: claimants(claims)[i],
                era,
                validators: claims_of(claims, claimants(claims)[i]),
            },
    )
}

/// One payout call for each rewarded validator that is bonded, in the
/// validators' order.
pub open spec fn validator_payouts(
    bonded: Seq<(AccountId, AccountId)>,
    rewarded: Seq<AccountId>,
    era: EraIndex,
) -> Seq<CallView>
    decreases rewarded.len(),
{
    if rewarded.len() == 0 {
        Seq::empty()
    } else {
        let rest = validator_payouts(bonded, rewarded.drop_last(), era);
        match controller_of(bonded, rewarded.last()) {
            Some(controller) => rest.push(CallView::PayoutValidator { controller, era }),
            None => rest,
        }
    }
}

/// Whether an account occurs in a list.
pub fn contains_account(list: &Vec<AccountId>, account: AccountId) -> (found: bool)
    ensures
        found == list@.contains(account),
{
    let mut i: usize = 0;
    while i < list.len()
        invariant
            i <= list.len(),
            forall|k: int| 0 <= k < i ==> list@[k] != account,
        decreases list.len() - i,
    {
        if list[i] == account {
            assert(list@[i as int] == account);
            return true;
        }
        i += 1;
    }
    false
}

/// The claims on all the rewarded validators of an era.
pub fn collect_claims(test: &Test, era: EraIndex, rewarded: &Vec<AccountId>) -> (claims: Vec<Claim>)
    ensures
        claims@ == all_claims(*test, era, rewarded@),
{
    let mut claims: Vec<Claim> = Vec::new();
    let mut i: usize = 0;
    proof {
        assert(rewarded@.subrange(0, 0) =~= Seq::<AccountId>::empty());
    }
    while i < rewarded.len()
        invariant
            i <= rewarded.len(),
            claims@ == all_claims(*test, era, rewarded@.subrange(0, i as int)),
        decreases rewarded.len() - i,
    {
        let validator = rewarded[i];
        let ghost before = claims@;
        proof {
            assert(rewarded@.subrange(0, i + 1).drop_last() =~= rewarded@.subrange(0, i as int));
        }
        match test.eras_stakers(era, validator) {
            Some(expo) => {
                let mut j: usize = 0;
                proof {
                    assert(expo.others@.subrange(0, 0) =~= Seq::<IndividualExposure>::empty());
                    assert(claims@ =~= before + exposure_claims(
                        test.bonded@,
                        validator,
                        expo.others@.subrange(0, 0),
                    ));
                }
                while j < expo.others.len()
                    invariant
                        j <= expo.others.len(),
                        claims@ == before + exposure_claims(
                            test.bonded@,
                            validator,
                            expo.others@.subrange(0, j as int),
                        ),
                    decreases expo.others.len() - j,
                {
                    let ghost so_far = claims@;
                    proof {
                        assert(expo.others@.subrange(0, j + 1).drop_last()
                            =~= expo.others@.subrange(0, j as int));
                    }
                    match test.bonded(expo.others[j].who) {
                        Some(controller) => {
                            claims.push((controller, validator, j));
                            proof {
                                assert(claims@ =~= before + exposure_claims(
                                    test.bonded@,
                                    validator,
                                    expo.others@.subrange(0, j + 1),
                                ));
                            }
                        },
                        None => {},
                    }
                    j += 1;
                }
                proof {
                    assert(expo.others@.subrange(0, expo.others@.len() as int) =~= expo.others@);
                }
            },
            None => {
                proof {
                    assert(claims@ =~= before + Seq::<Claim>::empty());
                }
            },
        }
        i += 1;
    }
    proof {
        assert(rewarded@.subrange(0, rewarded@.len() as int) =~= rewarded@);
    }
    claims
}

/// The controllers that hold a claim, each once, in the order in which
/// they first occur.
pub fn collect_claimants(claims: &Vec<Claim>) -> (controllers: Vec<AccountId>)
    ensures
        controllers@ == claimants(claims@),
{
    let mut controllers: Vec<AccountId> = Vec::new();
    let mut i: usize = 0;
    proof {
        assert(claims@.subrange(0, 0) =~= Seq::<Claim>::empty());
    }
    while i < claims.len()
        invariant
            i <= claims.len(),
            controllers@ == claimants(claims@.subrange(0, i as int)),
        decreases claims.len() - i,
    {
        proof {
            assert(claims@.subrange(0, i + 1).drop_last() =~= claims@.subrange(0, i as int));
        }
        if !contains_account(&controllers, claims[i].0) {
            controllers.push(claims[i].0);
        }
        i += 1;
    }
    proof {
        assert(claims@.subrange(0, claims@.len() as int) =~= claims@);
    }
    controllers
}

/// What one controller claims.
pub fn collect_claims_of(claims: &Vec<Claim>, controller: AccountId) -> (list: Vec<
    (AccountId, usize),
>)
    ensures
        list@ == claims_of(claims@, controller),
{
    let mut list: Vec<(AccountId, usize)> = Vec::new();
    let mut i: usize = 0;
    proof {
        assert(claims@.subrange(0, 0) =~= Seq::<Claim>::empty());
    }
    while i < claims.len()
        invariant
            i <= claims.len(),
            list@ == claims_of(claims@.subrange(0, i as int), controller),
        decreases claims.len() - i,
    {
        proof {
            assert(claims@.subrange(0, i + 1).drop_last() =~= claims@.subrange(0, i as int));
        }
        if claims[i].0 == controller {
            list.push((claims[i].1, claims[i].2));
        }
        i += 1;
    }
    proof {
        assert(claims@.subrange(0, claims@.len() as int) =~= claims@);
    }
    list
}

/// The calls that pay out an era: first one call for each nominator's
/// controller, with all that it claims, then one call for the controller of
/// each rewarded validator.
pub fn make_all_reward_payment(test: &Test, rewarded: &Vec<AccountId>, era: EraIndex) -> (calls:
    Vec<Call>)
    ensures
        calls_view(calls@) == nominator_payouts(all_claims(*test, era, rewarded@), era)
            + validator_payouts(test.bonded@, rewarded@, era),
{
    let claims = collect_claims(test, era, rewarded);
    let controllers = collect_claimants(&claims);
    let mut calls: Vec<Call> = Vec::new();
    let mut i: usize = 0;
    while i < controllers.len()
        invariant
            i <= controllers.len(),
            controllers@ == claimants(claims@),
            calls@.len() == i,
            forall|k: int|
                0 <= k < i ==> (#[trigger] calls@[k])@ == nominator_payouts(claims@, era)[k],
        decreases controllers.len() - i,
    {
        let validators = collect_claims_of(&claims, controllers[i]);
        calls.push(Call::PayoutNominator { controller: controllers[i], era, validators });
        i += 1;
    }
    let ghost first = calls@;
    proof {
        assert(calls_view(first) =~= nominator_payouts(claims@, era));
        assert(rewarded@.subrange(0, 0) =~= Seq::<AccountId>::empty());
        assert(calls_view(calls@) =~= calls_view(first) + validator_payouts(
            test.bonded@,
            rewarded@.subrange(0, 0),
            era,
        ));
    }
    let mut j: usize = 0;
    while j < rewarded.len()
        invariant
            j <= rewarded.len(),
            calls_view(calls@) == calls_view(first) + validator_payouts(
                test.bonded@,
                rewarded@.subrange(0, j as int),
                era,
            ),
        decreases rewarded.len() - j,
    {
        let ghost so_far = calls@;
        proof {
            assert(rewarded@.subrange(0, j + 1).drop_last() =~= rewarded@.subrange(0, j as int));
        }
        match test.bonded(rewarded[j]) {
            Some(controller) => {
                calls.push(Call::PayoutValidator { controller, era });
                proof {
                    assert(calls_view(calls@) =~= calls_view(so_far).push(
                        CallView::PayoutValidator { controller, era },
                    ));
                    assert(calls_view(calls@) =~= calls_view(first) + validator_payouts(
                        test.bonded@,
                        rewarded@.subrange(0, j + 1),
                        era,
                    ));
                }
            },
            None => {},
        }
        j += 1;
    }
    proof {
        assert(rewarded@.subrange(0, rewarded@.len() as int) =~= rewarded@);
    }
    calls
}

} // verus!
