use search_registry::calls::{
    bond_nominator, bond_validator, collect_claimants, collect_claims, collect_claims_of,
    contains_account, make_all_reward_payment, Call, RewardDestination,
};
use search_registry::mock::{Exposure, IndividualExposure, Test};

fn exposure(others: &[(u64, u64)]) -> Exposure {
    Exposure {
        total: 0,
        own: 0,
        others: others.iter().map(|&(who, value)| IndividualExposure { who, value }).collect(),
    }
}

fn fixture() -> Test {
    let mut test = Test::new();
    test.bonded = vec![(11, 10), (21, 20), (101, 100), (201, 200)];
    test.stakers = vec![
        (3, 11, exposure(&[(201, 5), (7, 1), (101, 5)])),
        (3, 21, exposure(&[(101, 9)])),
        (3, 31, exposure(&[(201, 9)])),
        (4, 11, exposure(&[(101, 1)])),
    ];
    test
}

#[test]
fn validator_is_funded_bonded_and_validates() {
    assert_eq!(
        bond_validator(11, 10, 500),
        vec![
            Call::MakeFreeBalanceBe { who: 11, value: 500 },
            Call::Bond {
                stash: 11,
                controller: 10,
                value: 500,
                payee: RewardDestination::Controller
            },
            Call::Validate { controller: 10 },
        ]
    );
}

#[test]
fn nominator_is_funded_bonded_and_nominates() {
    assert_eq!(
        bond_nominator(101, 100, 70, vec![11, 21]),
        vec![
            Call::MakeFreeBalanceBe { who: 101, value: 70 },
            Call::Bond {
                stash: 101,
                controller: 100,
                value: 70,
                payee: RewardDestination::Controller
            },
            Call::Nominate { controller: 100, targets: vec![11, 21] },
        ]
    );
}

#[test]
fn claims_follow_validators_and_exposures() {
    let test = fixture();
    let claims = collect_claims(&test, 3, &vec![11, 21, 41]);
    assert_eq!(claims, vec![(200, 11, 0), (100, 11, 2), (100, 21, 0)]);
    assert_eq!(collect_claimants(&claims), vec![200, 100]);
    assert_eq!(collect_claims_of(&claims, 100), vec![(11, 2), (21, 0)]);
    assert_eq!(collect_claims_of(&claims, 200), vec![(11, 0)]);
    assert!(collect_claims_of(&claims, 10).is_empty());
    assert!(collect_claims(&test, 5, &vec![11, 21]).is_empty());
    assert!(contains_account(&vec![1, 2, 3], 3));
    assert!(!contains_account(&vec![1, 2, 3], 4));
}

#[test]
fn era_is_paid_to_nominators_then_validators() {
    let test = fixture();
    assert_eq!(
        make_all_reward_payment(&test, &vec![11, 21, 31], 3),
        vec![
            Call::PayoutNominator { controller: 200, era: 3, validators: vec![(11, 0), (31, 0)] },
            Call::PayoutNominator { controller: 100, era: 3, validators: vec![(11, 2), (21, 0)] },
            Call::PayoutValidator { controller: 10, era: 3 },
            Call::PayoutValidator { controller: 20, era: 3 },
        ]
    );
    assert_eq!(
        make_all_reward_payment(&test, &vec![11], 4),
        vec![
            Call::PayoutNominator { controller: 100, era: 4, validators: vec![(11, 0)] },
            Call::PayoutValidator { controller: 10, era: 4 },
        ]
    );
    assert!(make_all_reward_payment(&test, &Vec::new(), 3).is_empty());
    assert!(make_all_reward_payment(&Test::new(), &vec![11], 3).is_empty());
}
