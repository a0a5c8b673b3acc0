use radix_engine::custom_schema::PackageAddress;
use radix_engine::epoch_manager::{
    EpochManagerBlueprint, EpochManagerError, EpochManagerEvent, EpochManagerMethod, EpochManagerState,
    EpochManagerSubstate, MethodRule, UpdateValidator, Validator, epoch_manager_access_rules, initial_validators,
};
use radix_engine::types::{ComponentAddress, Decimal, EcdsaSecp256k1PublicKey, ResourceAddress};

fn address(b: u8) -> ComponentAddress {
    ComponentAddress([b; 30])
}

fn validator(k: u8, stake: i128) -> Validator {
    Validator { key: EcdsaSecp256k1PublicKey([k; 33]), stake: Decimal { attos: stake } }
}

fn initial_state(rounds_per_epoch: u64) -> EpochManagerState {
    let keys = vec![EcdsaSecp256k1PublicKey([1; 33]), EcdsaSecp256k1PublicKey([2; 33])];
    let created = vec![(address(1), Decimal { attos: 100 }), (address(2), Decimal { attos: 200 })];
    let (state, event, rules) = EpochManagerBlueprint::create(
        address(100),
        ResourceAddress([5; 30]),
        PackageAddress([9; 30]),
        &keys,
        &created,
        10,
        rounds_per_epoch,
        2,
    );
    assert_eq!(event.epoch, 10);
    assert_eq!(event.validators.len(), 2);
    assert_eq!(rules.len(), 5);
    state
}

#[test]
fn initial_validators_take_their_key_and_deposited_stake() {
    let keys = vec![EcdsaSecp256k1PublicKey([7; 33]), EcdsaSecp256k1PublicKey([8; 33])];
    let created = vec![(address(3), Decimal { attos: 30 }), (address(4), Decimal { attos: 40 })];
    let validators = initial_validators(&keys, &created);
    assert_eq!(validators.len(), 2);
    assert_eq!(validators.get(&address(3)), Some(&validator(7, 30)));
    assert_eq!(validators.get(&address(4)), Some(&validator(8, 40)));
    assert_eq!(validators.get(&address(5)), None);
}

#[test]
fn a_new_epoch_manager_sets_its_method_rules() {
    assert_eq!(
        epoch_manager_access_rules(PackageAddress([9; 30])),
        vec![
            (EpochManagerMethod::NextRound, MethodRule::RequireValidatorRole),
            (EpochManagerMethod::GetCurrentEpoch, MethodRule::AllowAll),
            (EpochManagerMethod::CreateValidator, MethodRule::AllowAll),
            (EpochManagerMethod::UpdateValidator, MethodRule::RequirePackageToken(PackageAddress([9; 30]))),
            (EpochManagerMethod::SetEpoch, MethodRule::RequireSystemRole),
        ]
    );
}

#[test]
fn create_starts_at_round_zero_of_the_initial_epoch() {
    let state = initial_state(5);
    assert_eq!(
        state.manager,
        EpochManagerSubstate {
            address: address(100),
            validator_owner_resource: ResourceAddress([5; 30]),
            epoch: 10,
            round: 0,
            rounds_per_epoch: 5,
            num_unstake_epochs: 2,
        }
    );
    assert_eq!(state.current_validator_set.epoch, 10);
    assert_eq!(state.preparing_validator_set.epoch, 11);
    assert_eq!(state.current_validator_set.validator_set.get(&address(2)), Some(&validator(2, 200)));
    assert_eq!(state.preparing_validator_set.validator_set.get(&address(1)), Some(&validator(1, 100)));
    assert_eq!(EpochManagerBlueprint::get_current_epoch(&state.manager), 10);
}

#[test]
fn next_round_within_epoch_records_the_round() {
    let mut state = initial_state(5);
    match EpochManagerBlueprint::next_round(&mut state, 3) {
        Ok(EpochManagerEvent::RoundChange(e)) => assert_eq!(e.round, 3),
        _ => panic!("expected a round change"),
    }
    assert_eq!(state.manager.round, 3);
    assert_eq!(state.manager.epoch, 10);
}

#[test]
fn next_round_refuses_a_round_that_does_not_move_forward() {
    let mut state = initial_state(5);
    assert!(EpochManagerBlueprint::next_round(&mut state, 2).is_ok());
    match EpochManagerBlueprint::next_round(&mut state, 2) {
        Err(e) => assert_eq!(e, EpochManagerError::InvalidRoundUpdate { from: 2, to: 2 }),
        _ => panic!("expected a refusal"),
    }
    match EpochManagerBlueprint::next_round(&mut state, 1) {
        Err(e) => assert_eq!(e, EpochManagerError::InvalidRoundUpdate { from: 2, to: 1 }),
        _ => panic!("expected a refusal"),
    }
    match EpochManagerBlueprint::next_round(&mut state, 0) {
        Err(e) => assert_eq!(e, EpochManagerError::InvalidRoundUpdate { from: 2, to: 0 }),
        _ => panic!("expected a refusal"),
    }
    assert_eq!(state.manager.round, 2);
    assert_eq!(state.manager.epoch, 10);
}

#[test]
fn reaching_the_rounds_per_epoch_starts_the_prepared_epoch() {
    let mut state = initial_state(5);
    EpochManagerBlueprint::update_validator(&mut state, address(3), UpdateValidator::Register(EcdsaSecp256k1PublicKey([3; 33]), Decimal { attos: 300 }));
    EpochManagerBlueprint::update_validator(&mut state, address(1), UpdateValidator::Unregister);
    // The current set is untouched by the updates.
    assert_eq!(state.current_validator_set.validator_set.len(), 2);
    assert!(state.current_validator_set.validator_set.contains_key(&address(1)));
    match EpochManagerBlueprint::next_round(&mut state, 5) {
        Ok(EpochManagerEvent::EpochChange(e)) => {
            assert_eq!(e.epoch, 11);
            assert_eq!(e.validators.len(), 2);
            assert_eq!(e.validators.get(&address(3)), Some(&validator(3, 300)));
            assert_eq!(e.validators.get(&address(1)), None);
        },
        _ => panic!("expected an epoch change"),
    }
    assert_eq!(state.manager.epoch, 11);
    assert_eq!(state.manager.round, 0);
    assert_eq!(state.current_validator_set.epoch, 11);
    assert_eq!(state.preparing_validator_set.epoch, 12);
    assert_eq!(state.current_validator_set.validator_set.get(&address(3)), Some(&validator(3, 300)));
    assert!(!state.current_validator_set.validator_set.contains_key(&address(1)));
    assert!(state.current_validator_set.validator_set.contains_key(&address(2)));
}

#[test]
fn a_round_past_the_end_also_ends_the_epoch() {
    let mut state = initial_state(5);
    assert!(matches!(EpochManagerBlueprint::next_round(&mut state, 100), Ok(EpochManagerEvent::EpochChange(_))));
    assert_eq!(state.manager.epoch, 11);
    // A new epoch starts again from round zero.
    assert!(matches!(EpochManagerBlueprint::next_round(&mut state, 1), Ok(EpochManagerEvent::RoundChange(_))));
    assert_eq!(state.manager.round, 1);
}

#[test]
fn set_epoch_changes_only_the_epoch() {
    let mut state = initial_state(5);
    let before = state.manager;
    EpochManagerBlueprint::set_epoch(&mut state.manager, 42);
    assert_eq!(state.manager, EpochManagerSubstate { epoch: 42, ..before });
}

#[test]
fn registering_again_replaces_the_validator() {
    let mut state = initial_state(5);
    EpochManagerBlueprint::update_validator(&mut state, address(2), UpdateValidator::Register(EcdsaSecp256k1PublicKey([9; 33]), Decimal { attos: 1 }));
    assert_eq!(state.preparing_validator_set.validator_set.len(), 2);
    assert_eq!(state.preparing_validator_set.validator_set.get(&address(2)), Some(&validator(9, 1)));
    // Unregistering an unknown validator changes nothing.
    EpochManagerBlueprint::update_validator(&mut state, address(77), UpdateValidator::Unregister);
    assert_eq!(state.preparing_validator_set.validator_set.len(), 2);
}
