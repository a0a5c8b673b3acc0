use radix_engine::cuttlefish::{
    CuttlefishLedgerReads, CuttlefishSettings, CuttlefishStateUpdate, FlashTransaction, NoSettings, SystemParameters,
    UpdateNumberOfMinRoundsPerEpochSettings, UpdateSetting, generate_principal_batch,
};
use radix_engine::preparation::{PrepareError, PreparationSettings, TransactionPayloadKind, check_enum_variant};

fn reads(min_round_count: u64) -> CuttlefishLedgerReads {
    CuttlefishLedgerReads {
        system_boot_v1_parameters: Some(SystemParameters { encoded: vec![1, 2] }),
        min_round_count,
    }
}

fn all_enabled() -> CuttlefishSettings {
    CuttlefishSettings {
        system_logic_update: UpdateSetting::Enabled(NoSettings),
        transaction_validation_update: UpdateSetting::Enabled(NoSettings),
        update_number_of_min_rounds_per_epoch: UpdateSetting::Enabled(UpdateNumberOfMinRoundsPerEpochSettings::default()),
    }
}

#[test]
fn default_min_rounds_setting_lowers_500_to_100() {
    let s = UpdateNumberOfMinRoundsPerEpochSettings::default();
    assert_eq!(s, UpdateNumberOfMinRoundsPerEpochSettings::SetIfEquals { if_equals: 500, to_value: 100 });
    assert_eq!(s.apply(500), 100);
    assert_eq!(s.apply(499), 499);
    assert_eq!(UpdateNumberOfMinRoundsPerEpochSettings::SetValue { value: 7 }.apply(500), 7);
}

#[test]
fn principal_batch_with_everything_enabled() {
    let batch = generate_principal_batch(&reads(500), &all_enabled());
    assert_eq!(
        batch.transactions,
        vec![
            FlashTransaction {
                name: "cuttlefish-protocol-system-logic-updates".to_string(),
                update: CuttlefishStateUpdate::SystemBootForPreviousParameters(SystemParameters { encoded: vec![1, 2] }),
            },
            FlashTransaction {
                name: "cuttlefish-transaction-validation-updates".to_string(),
                update: CuttlefishStateUpdate::TransactionValidationConfigurationCuttlefish,
            },
            FlashTransaction {
                name: "cuttlefish-update-number-of-min-rounds-per-epoch".to_string(),
                update: CuttlefishStateUpdate::ConsensusManagerMinRoundCount(100),
            },
        ]
    );
}

#[test]
fn principal_batch_with_everything_disabled_is_empty() {
    let batch = generate_principal_batch(&reads(500), &CuttlefishSettings::all_disabled());
    assert!(batch.transactions.is_empty());
}

#[test]
fn principal_batch_keeps_an_unexpected_min_round_count() {
    let settings = CuttlefishSettings {
        update_number_of_min_rounds_per_epoch: UpdateSetting::Enabled(UpdateNumberOfMinRoundsPerEpochSettings::default()),
        ..CuttlefishSettings::all_disabled()
    };
    let batch = generate_principal_batch(&CuttlefishLedgerReads { system_boot_v1_parameters: None, min_round_count: 250 }, &settings);
    assert_eq!(batch.transactions.len(), 1);
    assert_eq!(batch.transactions[0].update, CuttlefishStateUpdate::ConsensusManagerMinRoundCount(250));
}

#[test]
fn batch_generator_has_one_principal_batch() {
    let generator = all_enabled().create_batch_generator();
    assert_eq!(generator.batch_count(0), 1);
    assert_eq!(generator.batch_group_descriptors(), vec!["Principal".to_string()]);
    assert_eq!(generator.generate_batch(&reads(500), 0, 0).transactions.len(), 3);
}

#[test]
fn preparation_settings_values() {
    let babylon = PreparationSettings::babylon();
    assert_eq!(babylon.max_user_payload_length, 1024 * 1024);
    assert_eq!(babylon.max_ledger_payload_length, 1024 * 1024 + 10);
    assert_eq!(babylon.max_child_subintents_per_intent, 0);
    assert_eq!(babylon.max_subintents_per_transaction, 0);
    assert_eq!(babylon.max_blobs, 64);
    let cuttlefish = PreparationSettings::cuttlefish();
    assert_eq!(cuttlefish.max_child_subintents_per_intent, 128);
    assert_eq!(cuttlefish.max_subintents_per_transaction, 128);
    assert_eq!(cuttlefish.max_user_payload_length, 1024 * 1024);
    assert_eq!(PreparationSettings::latest(), cuttlefish);
}

#[test]
fn check_len_limits_user_and_ledger_payloads() {
    let s = PreparationSettings::cuttlefish();
    assert_eq!(s.check_len(TransactionPayloadKind::CompleteUserTransaction, 1024 * 1024), Ok(()));
    assert_eq!(s.check_len(TransactionPayloadKind::CompleteUserTransaction, 1024 * 1024 + 1), Err(PrepareError::TransactionTooLarge));
    assert_eq!(s.check_len(TransactionPayloadKind::LedgerTransaction, 1024 * 1024 + 10), Ok(()));
    assert_eq!(s.check_len(TransactionPayloadKind::LedgerTransaction, 1024 * 1024 + 11), Err(PrepareError::TransactionTooLarge));
    assert_eq!(s.check_len(TransactionPayloadKind::Other, usize::MAX), Ok(()));
}

#[test]
fn an_unexpected_enum_variant_is_refused() {
    assert_eq!(check_enum_variant(3, 3), Ok(()));
    assert_eq!(check_enum_variant(3, 4), Err(PrepareError::UnexpectedDiscriminator { expected: 3, actual: 4 }));
}
