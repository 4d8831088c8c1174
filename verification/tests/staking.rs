use search_registry::genesis::{
    ElectionLookahead, ExistentialDeposit, ExtBuilder, Period, SessionsPerEra, SlashDeferDuration,
    StakerStatus,
};
use search_registry::mock::{
    active_era, assert_is_stash, assert_ledger_consistent, backing_within, check_exposure,
    check_exposure_all, check_nominator_all, check_nominator_exposure, is_disabled,
    on_offence_in_era, on_offence_now, reward_all_elected, validator_controllers, Author11,
    CurrencyToVoteHandler, Exposure, IndividualExposure, OtherSessionHandler, StakingLedger, Test,
    UnlockChunk,
};
use search_registry::session::{advance_session, run_to_block, start_era, start_session, Hook};

fn exposure(total: u64, own: u64, others: &[(u64, u64)]) -> Exposure {
    Exposure {
        total,
        own,
        others: others.iter().map(|&(who, value)| IndividualExposure { who, value }).collect(),
    }
}

fn ledger(stash: u64, total: u64, active: u64, unlocking: &[u64]) -> StakingLedger {
    StakingLedger {
        stash,
        total,
        active,
        unlocking: unlocking.iter().map(|&value| UnlockChunk { value, era: 3 }).collect(),
    }
}

fn fixture() -> Test {
    let mut test = Test::new();
    test.validators = vec![11, 21];
    test.bonded = vec![(11, 10), (21, 20), (101, 100)];
    test.ledgers = vec![
        (10, ledger(11, 1000, 1000, &[])),
        (20, ledger(21, 1000, 700, &[100, 200])),
        (100, ledger(101, 500, 400, &[50])),
    ];
    test.stakers = vec![
        (0, 11, exposure(1250, 1000, &[(101, 250)])),
        (0, 21, exposure(1250, 1000, &[(101, 250)])),
        (1, 11, exposure(1300, 1000, &[(101, 250)])),
    ];
    test.nominators = vec![101];
    test.active_era = Some(0);
    test
}

#[test]
fn exposure_total_is_own_and_others() {
    assert!(check_exposure(&exposure(0, 0, &[])));
    assert!(check_exposure(&exposure(1250, 1000, &[(101, 250)])));
    assert!(check_exposure(&exposure(60, 10, &[(1, 20), (2, 30)])));
    assert!(!check_exposure(&exposure(61, 10, &[(1, 20), (2, 30)])));
    assert!(!check_exposure(&exposure(10, 10, &[(1, 1)])));
    assert!(!check_exposure(&exposure(u64::MAX, u64::MAX, &[(1, u64::MAX), (2, 1)])));
}

#[test]
fn exposures_are_checked_era_by_era() {
    let test = fixture();
    assert!(check_exposure_all(&test, 0));
    assert!(!check_exposure_all(&test, 1));
    assert!(check_exposure_all(&test, 2));
}

#[test]
fn stash_is_what_is_bonded() {
    let test = fixture();
    assert!(assert_is_stash(&test, 11));
    assert!(assert_is_stash(&test, 101));
    assert!(!assert_is_stash(&test, 10));
    assert_eq!(test.bonded(21), Some(20));
    assert_eq!(test.bonded(22), None);
    assert_eq!(test.ledger(20).unwrap().stash, 21);
    assert!(test.ledger(21).is_none());
}

#[test]
fn ledger_total_is_active_and_unlocking() {
    let test = fixture();
    assert!(assert_ledger_consistent(&test, 11));
    assert!(assert_ledger_consistent(&test, 21));
    assert!(!assert_ledger_consistent(&test, 101));
    assert!(!assert_ledger_consistent(&test, 10));
    assert!(!assert_ledger_consistent(&test, 0));
    let mut unbacked = fixture();
    unbacked.bonded.push((31, 30));
    assert!(!assert_ledger_consistent(&unbacked, 31));
}

#[test]
fn disabled_validators_are_found_by_their_controller() {
    let mut test = fixture();
    assert!(!is_disabled(&test, 10));
    OtherSessionHandler::on_disabled(&mut test, 1);
    assert_eq!(test.disabled, vec![21]);
    assert!(is_disabled(&test, 20));
    assert!(!is_disabled(&test, 10));
    OtherSessionHandler::on_new_session(&mut test, vec![21, 11]);
    assert_eq!(test.validators, vec![21, 11]);
    assert!(test.disabled.is_empty());
    assert!(!is_disabled(&test, 20));
}

#[test]
fn controllers_follow_the_validators() {
    let mut test = fixture();
    assert_eq!(validator_controllers(&test), vec![10, 20]);
    test.validators = vec![21, 101, 11];
    assert_eq!(validator_controllers(&test), vec![20, 100, 10]);
    test.validators = Vec::new();
    assert!(validator_controllers(&test).is_empty());
}

#[test]
fn active_era_is_read_from_the_fixture() {
    let mut test = fixture();
    assert_eq!(active_era(&test), 0);
    test.active_era = Some(7);
    assert_eq!(active_era(&test), 7);
}

#[test]
fn votes_and_author() {
    assert_eq!(CurrencyToVoteHandler::convert(0), 0);
    assert_eq!(CurrencyToVoteHandler::convert(u64::MAX), u64::MAX);
    assert_eq!(CurrencyToVoteHandler::convert_wide(5), 5);
    assert_eq!(CurrencyToVoteHandler::convert_wide(u64::MAX as u128), u64::MAX);
    assert_eq!(CurrencyToVoteHandler::convert_wide(u64::MAX as u128 + 1), u64::MAX);
    assert_eq!(CurrencyToVoteHandler::convert_wide(u128::MAX), u64::MAX);
    assert_eq!(Author11::find_author(), Some(11));
}

#[test]
fn nominator_spends_no_more_than_its_stake() {
    let mut test = fixture();
    assert!(!check_nominator_exposure(&test, 0, 101));
    assert!(check_nominator_exposure(&test, 1, 101));
    assert!(check_nominator_exposure(&test, 2, 101));
    assert!(!check_nominator_all(&test, 0));
    assert!(check_nominator_all(&test, 1));
    test.ledgers[2].1.active = 500;
    assert!(check_nominator_exposure(&test, 0, 101));
    assert!(check_nominator_all(&test, 0));
    test.ledgers[2].1.active = 499;
    assert!(!check_nominator_exposure(&test, 0, 101));
    assert!(!check_nominator_exposure(&test, 0, 100));
    assert!(check_nominator_exposure(&test, 0, 11));
    test.nominators = Vec::new();
    assert!(check_nominator_all(&test, 0));
    test.nominators = vec![11, 7];
    assert!(!check_nominator_all(&test, 0));
}

#[test]
fn nominator_total_may_pass_64_bits() {
    let mut test = fixture();
    test.stakers = vec![
        (0, 11, exposure(0, 0, &[(101, u64::MAX), (5, 1)])),
        (0, 21, exposure(0, 0, &[(101, u64::MAX)])),
    ];
    test.ledgers[2].1.active = u64::MAX;
    assert!(!check_nominator_exposure(&test, 0, 101));
    test.validators = vec![11];
    assert!(check_nominator_exposure(&test, 0, 101));
}

#[test]
fn backing_is_summed_up_to_the_room() {
    let others = exposure(0, 0, &[(1, 10), (2, 5), (1, 7)]).others;
    assert_eq!(backing_within(&others, 1, 17), Some(17));
    assert_eq!(backing_within(&others, 1, 16), None);
    assert_eq!(backing_within(&others, 2, 5), Some(5));
    assert_eq!(backing_within(&others, 3, 0), Some(0));
    assert_eq!(test_stake(&fixture(), 101), 400);
    assert_eq!(test_stake(&fixture(), 100), 0);
}

fn test_stake(test: &Test, stash: u64) -> u64 {
    test.slashable_balance_of(stash)
}

#[test]
fn every_validator_is_rewarded_one_point() {
    let mut test = fixture();
    assert_eq!(reward_all_elected(&test), vec![(11, 1), (21, 1)]);
    test.validators = Vec::new();
    assert!(reward_all_elected(&test).is_empty());
}

#[test]
fn offence_is_slashed_at_the_session_of_its_era() {
    let bonded = vec![(1, 3), (2, 6), (4, 12)];
    assert_eq!(on_offence_in_era(&bonded, 4, Some(12), 2), Some(6));
    assert_eq!(on_offence_in_era(&bonded, 4, Some(13), 4), Some(12));
    assert_eq!(on_offence_in_era(&bonded, 4, Some(12), 3), None);
    assert_eq!(on_offence_in_era(&bonded, 3, Some(9), 3), Some(9));
    assert_eq!(on_offence_in_era(&bonded, 3, None, 3), None);
    assert_eq!(on_offence_in_era(&bonded, 5, Some(15), 0), None);
    assert_eq!(on_offence_in_era(&vec![(5, 1), (2, 6)], 9, None, 2), None);
    assert_eq!(on_offence_now(&bonded, 2, Some(7)), Some(6));
    assert_eq!(on_offence_now(&bonded, 5, Some(15)), Some(15));
    assert_eq!(on_offence_now(&Vec::new(), 0, None), None);
}

#[test]
fn builder_starts_from_the_defaults() {
    let builder = ExtBuilder::default();
    assert_eq!(builder.session_length, 1);
    assert_eq!(builder.election_lookahead, 0);
    assert_eq!(builder.session_per_era, 3);
    assert_eq!(builder.existential_deposit, 1);
    assert!(!builder.validator_pool);
    assert!(builder.nominate);
    assert_eq!(builder.validator_count, 2);
    assert_eq!(builder.minimum_validator_count, 0);
    assert_eq!(builder.slash_defer_duration, 0);
    assert!(builder.fair);
    assert_eq!(builder.num_validators, None);
    assert!(builder.invulnerables.is_empty());
    assert!(builder.has_stakers);
}

#[test]
fn builder_sets_one_field_at_a_time() {
    let builder = ExtBuilder::default()
        .existential_deposit(5)
        .validator_pool(true)
        .nominate(false)
        .validator_count(7)
        .minimum_validator_count(3)
        .slash_defer_duration(2)
        .fair(false)
        .num_validators(9)
        .invulnerables(vec![11, 21])
        .session_per_era(6)
        .election_lookahead(4)
        .session_length(8)
        .has_stakers(false);
    assert_eq!(builder.existential_deposit, 5);
    assert!(builder.validator_pool);
    assert!(!builder.nominate);
    assert_eq!(builder.validator_count, 7);
    assert_eq!(builder.minimum_validator_count, 3);
    assert_eq!(builder.slash_defer_duration, 2);
    assert!(!builder.fair);
    assert_eq!(builder.num_validators, Some(9));
    assert_eq!(builder.invulnerables, vec![11, 21]);
    assert_eq!(builder.session_per_era, 6);
    assert_eq!(builder.election_lookahead, 4);
    assert_eq!(builder.session_length, 8);
    assert!(!builder.has_stakers);
    let offchain = ExtBuilder::default().offchain_phragmen_ext();
    assert_eq!(offchain.session_per_era, 4);
    assert_eq!(offchain.session_length, 5);
    assert_eq!(offchain.election_lookahead, 3);
    assert_eq!(offchain.validator_count, 2);
}

#[test]
fn constants_are_written_into_the_fixture() {
    let mut test = fixture();
    assert_eq!(ExistentialDeposit::get(&test), 0);
    assert_eq!(SessionsPerEra::get(&test), 3);
    assert_eq!(ElectionLookahead::get(&test), 0);
    assert_eq!(Period::get(&test), 1);
    assert_eq!(SlashDeferDuration::get(&test), 0);
    let builder = ExtBuilder::default()
        .existential_deposit(5)
        .slash_defer_duration(2)
        .offchain_phragmen_ext();
    builder.set_associated_constants(&mut test);
    assert_eq!(ExistentialDeposit::get(&test), 5);
    assert_eq!(SessionsPerEra::get(&test), 4);
    assert_eq!(ElectionLookahead::get(&test), 3);
    assert_eq!(Period::get(&test), 5);
    assert_eq!(SlashDeferDuration::get(&test), 2);
    assert_eq!(test.validators, vec![11, 21]);
    assert_eq!(test.active_era, Some(0));
}

#[test]
fn default_genesis() {
    let genesis = ExtBuilder::default().build();
    assert_eq!(
        genesis.balances,
        vec![
            (1, 10),
            (2, 20),
            (3, 300),
            (4, 400),
            (10, 1),
            (11, 1000),
            (20, 1),
            (21, 2000),
            (30, 1),
            (31, 2000),
            (40, 1),
            (41, 2000),
            (100, 2000),
            (101, 2000),
            (999, 1_000_000_000_000),
        ]
    );
    assert_eq!(genesis.session_keys, vec![11, 21]);
    assert_eq!(genesis.validator_count, 2);
    assert_eq!(genesis.minimum_validator_count, 0);
    assert!(genesis.invulnerables.is_empty());
    assert_eq!(genesis.slash_reward_percent, 10);
    assert_eq!(genesis.timestamp, 30_000);
    let stakers: Vec<(u64, u64, u64)> =
        genesis.stakers.iter().map(|s| (s.stash, s.controller, s.stake)).collect();
    assert_eq!(
        stakers,
        vec![(11, 10, 1000), (21, 20, 1000), (31, 30, 1), (41, 40, 1000), (101, 100, 500)]
    );
    assert!(matches!(genesis.stakers[0].status, StakerStatus::Validator));
    assert!(matches!(genesis.stakers[2].status, StakerStatus::Validator));
    assert!(matches!(genesis.stakers[3].status, StakerStatus::Idle));
    match &genesis.stakers[4].status {
        StakerStatus::Nominator(targets) => assert_eq!(targets, &vec![11, 21]),
        _ => panic!("the last staker nominates"),
    }
}

#[test]
fn scaled_genesis_with_a_validator_pool() {
    let genesis = ExtBuilder::default()
        .existential_deposit(2)
        .validator_pool(true)
        .fair(false)
        .nominate(false)
        .num_validators(4)
        .validator_count(3)
        .invulnerables(vec![21])
        .build();
    assert_eq!(genesis.balances[0], (1, 2560));
    assert_eq!(genesis.balances[4], (10, 256));
    assert_eq!(genesis.balances[5], (11, 256_000));
    assert_eq!(genesis.balances[7], (21, 512_000));
    assert_eq!(genesis.balances[13], (101, 512_000));
    assert_eq!(genesis.balances[14], (999, 1_000_000_000_000));
    assert_eq!(genesis.session_keys, vec![11, 21, 31, 41]);
    assert_eq!(genesis.validator_count, 3);
    assert_eq!(genesis.invulnerables, vec![21]);
    let stakers: Vec<(u64, u64, u64)> =
        genesis.stakers.iter().map(|s| (s.stash, s.controller, s.stake)).collect();
    assert_eq!(
        stakers,
        vec![
            (11, 10, 256_000),
            (21, 20, 2000),
            (31, 30, 256_000),
            (41, 40, 256_000),
            (101, 100, 128_000)
        ]
    );
    assert!(matches!(genesis.stakers[3].status, StakerStatus::Validator));
    match &genesis.stakers[4].status {
        StakerStatus::Nominator(targets) => assert!(targets.is_empty()),
        _ => panic!("the last staker nominates"),
    }
    let empty = ExtBuilder::default().has_stakers(false).validator_count(0).build();
    assert!(empty.stakers.is_empty());
    assert!(empty.session_keys.is_empty());
    assert_eq!(empty.balances.len(), 15);
}

#[test]
fn blocks_are_opened_and_closed_in_order() {
    assert_eq!(run_to_block(5, 5), vec![Hook::StakingFinalize(5)]);
    assert_eq!(run_to_block(5, 3), vec![Hook::StakingFinalize(5)]);
    assert_eq!(
        run_to_block(1, 3),
        vec![
            Hook::StakingFinalize(1),
            Hook::SetBlockNumber(2),
            Hook::SessionInitialize(2),
            Hook::StakingInitialize(2),
            Hook::StakingFinalize(2),
            Hook::SetBlockNumber(3),
            Hook::SessionInitialize(3),
            Hook::StakingInitialize(3),
        ]
    );
    assert_eq!(run_to_block(u64::MAX - 1, u64::MAX).len(), 4);
}

#[test]
fn sessions_are_left_one_block_each() {
    assert!(start_session(3, 3, 3).is_empty());
    assert!(start_session(3, 3, 1).is_empty());
    assert_eq!(
        start_session(0, 7, 2),
        vec![
            Hook::StakingFinalize(7),
            Hook::SetBlockNumber(1),
            Hook::SetTimestamp(31_000),
            Hook::SessionInitialize(1),
            Hook::StakingInitialize(1),
            Hook::StakingFinalize(1),
            Hook::SetBlockNumber(2),
            Hook::SetTimestamp(32_000),
            Hook::SessionInitialize(2),
            Hook::StakingInitialize(2),
        ]
    );
    assert_eq!(
        advance_session(4, 4),
        vec![
            Hook::StakingFinalize(4),
            Hook::SetBlockNumber(5),
            Hook::SetTimestamp(35_000),
            Hook::SessionInitialize(5),
            Hook::StakingInitialize(5),
        ]
    );
    assert_eq!(start_era(0, 0, 3, 2), start_session(0, 0, 6));
    assert_eq!(start_era(0, 0, 3, 2).len(), 30);
    assert!(start_era(6, 6, 3, 2).is_empty());
}
