use vstd::prelude::*;

use crate::types::copy_bytes;

verus! {

/// A protocol update setting that carries nothing.
#[derive(Debug, Clone, Copy, PartialEq, Eq)]
pub struct NoSettings;

/// Whether a part of a protocol update is applied, and with what settings.
#[derive(Debug, Clone, Copy, PartialEq, Eq)]
pub enum UpdateSetting<T> {
    Enabled(T),
    Disabled,
}

/// How the Cuttlefish update changes the minimum number of rounds per epoch.
#[derive(Debug, Clone, Copy, PartialEq, Eq)]
pub enum UpdateNumberOfMinRoundsPerEpochSettings {
    SetValue { value: u64 },
    SetIfEquals { if_equals: u64, to_value: u64 },
}

/// The minimum number of rounds per epoch after the update, given the current one: `SetValue`
/// replaces it, `SetIfEquals` replaces it only when it is the expected value.
pub open spec fn min_rounds_after(settings: UpdateNumberOfMinRoundsPerEpochSettings, current: u64) -> u64 {
    match settings {
        UpdateNumberOfMinRoundsPerEpochSettings::SetValue { value } => value,
        UpdateNumberOfMinRoundsPerEpochSettings::SetIfEquals { if_equals, to_value } =>
            if current == if_equals { to_value } else { current },
    }
}

impl Default for UpdateNumberOfMinRoundsPerEpochSettings {
    /// Lowers the minimum from 500 rounds to 100, when it is still 500.
    fn default() -> (r: Self)
        ensures
            r == (UpdateNumberOfMinRoundsPerEpochSettings::SetIfEquals { if_equals: 500, to_value: 100 }),
    {
        UpdateNumberOfMinRoundsPerEpochSettings::SetIfEquals { if_equals: 500, to_value: 100 }
    }
}

impl UpdateNumberOfMinRoundsPerEpochSettings {
    /// The minimum number of rounds per epoch after the update, given the current one.
    pub fn apply(&self, current: u64) -> (r: u64)
        ensures
            r == min_rounds_after(*self, current),
    {
        match *self {
            UpdateNumberOfMinRoundsPerEpochSettings::SetValue { value } => value,
            UpdateNumberOfMinRoundsPerEpochSettings::SetIfEquals { if_equals, to_value } => {
                if current == if_equals {
                    to_value
                } else {
                    current
                }
            },
        }
    }
}

/// The settings of the Cuttlefish protocol update.
#[derive(Debug, Clone, Copy, PartialEq, Eq)]
pub struct CuttlefishSettings {
    /// Add configuration for system logic versioning.
    pub system_logic_update: UpdateSetting<NoSettings>,
    /// Add transaction validation changes.
    pub transaction_validation_update: UpdateSetting<NoSettings>,
    /// Update the minimum number of rounds per epoch.
    pub update_number_of_min_rounds_per_epoch: UpdateSetting<UpdateNumberOfMinRoundsPerEpochSettings>,
}

/// The system parameters that a version one system boot substate holds, encoded.
#[derive(Debug, Clone, PartialEq, Eq)]
pub struct SystemParameters {
    pub encoded: Vec<u8>,
}

/// What the Cuttlefish update reads from the ledger before it writes.
#[derive(Debug, Clone, PartialEq, Eq)]
pub struct CuttlefishLedgerReads {
    /// The parameters of the system boot substate, when it is of version one.
    pub system_boot_v1_parameters: Option<SystemParameters>,
    /// The consensus manager's current minimum number of rounds per epoch.
    pub min_round_count: u64,
}

/// A substate write of the Cuttlefish update.
#[derive(Debug, Clone, PartialEq, Eq)]
pub enum CuttlefishStateUpdate {
    /// The system boot substate becomes the Cuttlefish one built on the previous parameters.
    SystemBootForPreviousParameters(SystemParameters),
    /// The transaction validation configuration becomes the Cuttlefish one.
    TransactionValidationConfigurationCuttlefish,
    /// The consensus manager configuration gets this minimum number of rounds per epoch,
    /// with its other fields as they were.
    ConsensusManagerMinRoundCount(u64),
}

/// A flash transaction of a protocol update: a name and the substate write it makes.
#[derive(Debug, Clone, PartialEq, Eq)]
pub struct FlashTransaction {
    pub name: String,
    pub update: CuttlefishStateUpdate,
}

/// A batch of protocol update transactions, committed as one.
#[derive(Debug, Clone, PartialEq, Eq)]
pub struct ProtocolUpdateBatch {
    pub transactions: Vec<FlashTransaction>,
}

/// A flash transaction as mathematical values.
pub enum FlashView {
    SystemBoot(Seq<char>, Seq<u8>),
    TransactionValidation(Seq<char>),
    MinRoundCount(Seq<char>, u64),
}

/// The view of a flash transaction.
pub open spec fn flash_view(t: FlashTransaction) -> FlashView {
    match t.update {
        CuttlefishStateUpdate::SystemBootForPreviousParameters(p) => FlashView::SystemBoot(t.name@, p.encoded@),
        CuttlefishStateUpdate::TransactionValidationConfigurationCuttlefish => FlashView::TransactionValidation(t.name@),
        CuttlefishStateUpdate::ConsensusManagerMinRoundCount(n) => FlashView::MinRoundCount(t.name@, n),
    }
}

/// The transactions of the principal batch: the system logic update, the transaction
/// validation update and the minimum rounds update, in that order, each only when enabled.
pub open spec fn principal_batch(reads: CuttlefishLedgerReads, settings: CuttlefishSettings) -> Seq<FlashView> {
    let a = if settings.system_logic_update is Enabled {
        seq![FlashView::SystemBoot("cuttlefish-protocol-system-logic-updates"@, reads.system_boot_v1_parameters.unwrap().encoded@)]
    } else {
        Seq::empty()
    };
    let b = if settings.transaction_validation_update is Enabled {
        seq![FlashView::TransactionValidation("cuttlefish-transaction-validation-updates"@)]
    } else {
        Seq::empty()
    };
    let c = match settings.update_number_of_min_rounds_per_epoch {
        UpdateSetting::Enabled(s) => seq![FlashView::MinRoundCount(
            "cuttlefish-update-number-of-min-rounds-per-epoch"@,
            min_rounds_after(s, reads.min_round_count),
        )],
        UpdateSetting::Disabled => Seq::empty(),
    };
    a + b + c
}

impl CuttlefishSettings {
    /// Settings that apply none of the update's parts.
    pub fn all_disabled() -> (r: Self)
        ensures
            r.system_logic_update is Disabled,
            r.transaction_validation_update is Disabled,
            r.update_number_of_min_rounds_per_epoch is Disabled,
    {
        CuttlefishSettings {
            system_logic_update: UpdateSetting::Disabled,
            transaction_validation_update: UpdateSetting::Disabled,
            update_number_of_min_rounds_per_epoch: UpdateSetting::Disabled,
        }
    }

    /// The generator of the update's batches, for these settings.
    pub fn create_batch_generator(&self) -> (r: CuttlefishBatchGenerator)
        ensures
            r.settings == *self,
    {
        CuttlefishBatchGenerator { settings: *self }
    }
}

/// Generates the batches of the Cuttlefish update.
#[derive(Debug, Clone, Copy, PartialEq, Eq)]
pub struct CuttlefishBatchGenerator {
    pub settings: CuttlefishSettings,
}

/// The system logic update: the system boot substate rebuilt on its previous parameters.
fn generate_system_logic_v2_updates(reads: &CuttlefishLedgerReads) -> (r: CuttlefishStateUpdate)
    requires
        reads.system_boot_v1_parameters is Some,
    ensures
        r matches CuttlefishStateUpdate::SystemBootForPreviousParameters(p)
            && p.encoded@ == reads.system_boot_v1_parameters.unwrap().encoded@,
{
    match &reads.system_boot_v1_parameters {
        Some(parameters) => CuttlefishStateUpdate::SystemBootForPreviousParameters(
            SystemParameters { encoded: copy_bytes(&parameters.encoded) },
        ),
        None => {
            assert(false);
            CuttlefishStateUpdate::TransactionValidationConfigurationCuttlefish
        },
    }
}

/// The transaction validation update.
fn generate_cuttlefish_transaction_validation_updates() -> (r: CuttlefishStateUpdate)
    ensures
        r == CuttlefishStateUpdate::TransactionValidationConfigurationCuttlefish,
{
    CuttlefishStateUpdate::TransactionValidationConfigurationCuttlefish
}

/// The minimum rounds update: the consensus manager configuration with the minimum number of
/// rounds per epoch that the settings give for the current one.
fn generate_cuttlefish_update_min_rounds_per_epoch(
    reads: &CuttlefishLedgerReads,
    settings: UpdateNumberOfMinRoundsPerEpochSettings,
) -> (r: CuttlefishStateUpdate)
    ensures
        r == CuttlefishStateUpdate::ConsensusManagerMinRoundCount(min_rounds_after(settings, reads.min_round_count)),
{
    CuttlefishStateUpdate::ConsensusManagerMinRoundCount(settings.apply(reads.min_round_count))
}

fn flash(name: &str, update: CuttlefishStateUpdate) -> (r: FlashTransaction)
    ensures
        r.name@ == name@,
        r.update == update,
{
    FlashTransaction { name: String::from_str(name), update }
}

/// The principal batch of the update: one flash transaction for each enabled part. The
/// system logic part requires the system boot substate to be of version one.
pub fn generate_principal_batch(reads: &CuttlefishLedgerReads, settings: &CuttlefishSettings) -> (r: ProtocolUpdateBatch)
    requires
        settings.system_logic_update is Enabled ==> reads.system_boot_v1_parameters is Some,
    ensures
        r.transactions@.map_values(|t: FlashTransaction| flash_view(t)) == principal_batch(*reads, *settings),
{
    let mut transactions: Vec<FlashTransaction> = Vec::new();
    let ghost mut expected: Seq<FlashView> = Seq::empty();
    if let UpdateSetting::Enabled(NoSettings) = settings.system_logic_update {
        let t = flash("cuttlefish-protocol-system-logic-updates", generate_system_logic_v2_updates(reads));
        proof {
            reveal_strlit("cuttlefish-protocol-system-logic-updates");
            expected = expected.push(flash_view(t));
        }
        transactions.push(t);
    }
    if let UpdateSetting::Enabled(NoSettings) = settings.transaction_validation_update {
        let t = flash("cuttlefish-transaction-validation-updates", generate_cuttlefish_transaction_validation_updates());
        proof {
            reveal_strlit("cuttlefish-transaction-validation-updates");
            expected = expected.push(flash_view(t));
        }
        transactions.push(t);
    }
    if let UpdateSetting::Enabled(s) = settings.update_number_of_min_rounds_per_epoch {
        let t = flash("cuttlefish-update-number-of-min-rounds-per-epoch", generate_cuttlefish_update_min_rounds_per_epoch(reads, s));
        proof {
            reveal_strlit("cuttlefish-update-number-of-min-rounds-per-epoch");
            expected = expected.push(flash_view(t));
        }
        transactions.push(t);
    }
    proof {
        reveal_strlit("cuttlefish-protocol-system-logic-updates");
        reveal_strlit("cuttlefish-transaction-validation-updates");
        reveal_strlit("cuttlefish-update-number-of-min-rounds-per-epoch");
        assert(transactions@.map_values(|t: FlashTransaction| flash_view(t)) =~= expected);
        assert(expected =~= principal_batch(*reads, *settings));
    }
    ProtocolUpdateBatch { transactions }
}

impl CuttlefishBatchGenerator {
    /// The batch at the given position: the update has a single group with a single batch,
    /// the principal one.
    pub fn generate_batch(&self, reads: &CuttlefishLedgerReads, batch_group_index: usize, batch_index: usize) -> (r: ProtocolUpdateBatch)
        requires
            batch_group_index == 0,
            batch_index == 0,
            self.settings.system_logic_update is Enabled ==> reads.system_boot_v1_parameters is Some,
        ensures
            r.transactions@.map_values(|t: FlashTransaction| flash_view(t)) == principal_batch(*reads, self.settings),
    {
        generate_principal_batch(reads, &self.settings)
    }

    /// The number of batches in a group: the only group holds one batch.
    pub fn batch_count(&self, batch_group_index: usize) -> (r: usize)
        requires
            batch_group_index == 0,
        ensures
            r == 1,
    {
        1
    }

    /// The descriptions of the batch groups: a single one, "Principal".
    pub fn batch_group_descriptors(&self) -> (r: Vec<String>)
        ensures
            r@.len() == 1,
            r@[0]@ == "Principal"@,
    {
        let mut v: Vec<String> = Vec::new();
        v.push(String::from_str("Principal"));
        v
    }
}

/// Disabled settings generate an empty batch, whatever the ledger holds.
pub proof fn lemma_disabled_update_is_empty(reads: CuttlefishLedgerReads)
    ensures
        ({
            let settings = CuttlefishSettings {
                system_logic_update: UpdateSetting::Disabled,
                transaction_validation_update: UpdateSetting::Disabled,
                update_number_of_min_rounds_per_epoch: UpdateSetting::Disabled,
            };
            principal_batch(reads, settings).len() == 0
        }),
{
}

/// The minimum rounds update is idempotent: applying its settings again to what they
/// produced changes nothing more.
pub proof fn lemma_min_rounds_update_idempotent(settings: UpdateNumberOfMinRoundsPerEpochSettings, current: u64)
    ensures
        min_rounds_after(settings, min_rounds_after(settings, current)) == min_rounds_after(settings, current),
{
}


/// Setting the minimum outright always gives the value set; a conditional update gives its
/// new value when the current minimum is the expected one, and otherwise leaves the current
/// minimum exactly as it was, whether it is above or below the expected one.
pub proof fn lemma_min_rounds_update_replaces_only_the_expected_value(
    value: u64,
    if_equals: u64,
    to_value: u64,
    current: u64,
)
    ensures
        min_rounds_after(UpdateNumberOfMinRoundsPerEpochSettings::SetValue { value }, current) == value,
        current == if_equals ==> min_rounds_after(
            UpdateNumberOfMinRoundsPerEpochSettings::SetIfEquals { if_equals, to_value }, current) == to_value,
        current != if_equals ==> min_rounds_after(
            UpdateNumberOfMinRoundsPerEpochSettings::SetIfEquals { if_equals, to_value }, current) == current,
{
}

/// The principal batch has one transaction for each enabled part and none for the others:
/// the system logic update first when enabled, the minimum rounds update last when enabled.
pub proof fn lemma_one_transaction_per_enabled_part(reads: CuttlefishLedgerReads, settings: CuttlefishSettings)
    ensures
        principal_batch(reads, settings).len() == (if settings.system_logic_update is Enabled { 1int } else { 0int })
            + (if settings.transaction_validation_update is Enabled { 1int } else { 0int })
            + (if settings.update_number_of_min_rounds_per_epoch is Enabled { 1int } else { 0int }),
        settings.system_logic_update is Enabled ==> principal_batch(reads, settings)[0] is SystemBoot,
        settings.update_number_of_min_rounds_per_epoch is Enabled ==>
            principal_batch(reads, settings).last() is MinRoundCount,
        settings.transaction_validation_update is Enabled ==> exists|i: int|
            0 <= i < principal_batch(reads, settings).len() && #[trigger] principal_batch(reads, settings)[i] is TransactionValidation,
{
    let b = principal_batch(reads, settings);
    if settings.transaction_validation_update is Enabled {
        let i: int = if settings.system_logic_update is Enabled { 1 } else { 0 };
        assert(b[i] is TransactionValidation);
    }
}
} // verus!
