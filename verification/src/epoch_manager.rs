use vstd::prelude::*;

use crate::assoc_map::AssocMap;
use crate::custom_schema::PackageAddress;
use crate::types::{ComponentAddress, Decimal, EcdsaSecp256k1PublicKey, NonFungibleGlobalId, NonFungibleLocalId, ResourceAddress};

verus! {

/// The epoch manager's own substate: where it is, and which epoch and round it is in.
#[derive(Debug, Clone, Copy, PartialEq, Eq)]
pub struct EpochManagerSubstate {
    pub address: ComponentAddress,
    pub validator_owner_resource: ResourceAddress,
    pub epoch: u64,
    pub round: u64,
    pub rounds_per_epoch: u64,
    pub num_unstake_epochs: u64,
}

/// A validator: its key and its stake.
#[derive(Debug, Clone, Copy, PartialEq, Eq)]
pub struct Validator {
    pub key: EcdsaSecp256k1PublicKey,
    pub stake: Decimal,
}

/// A set of validators, by the address of their validator component, for one epoch.
pub struct ValidatorSetSubstate {
    pub validator_set: AssocMap<ComponentAddress, Validator>,
    pub epoch: u64,
}

/// Why the epoch manager refused a request.
#[derive(Debug, Clone, Copy, PartialEq, Eq)]
pub enum EpochManagerError {
    InvalidRoundUpdate { from: u64, to: u64 },
}

/// A change to a validator's entry in the validator set that is being prepared.
#[derive(Debug, Clone, Copy, PartialEq, Eq)]
pub enum UpdateValidator {
    Register(EcdsaSecp256k1PublicKey, Decimal),
    Unregister,
}

/// What creating a validator asks of the validator blueprint: a validator of the manager with
/// the given key, not yet registered, owned by whoever holds the owner badge.
#[derive(Debug, Clone, PartialEq, Eq)]
pub struct ValidatorCreation {
    pub manager: ComponentAddress,
    pub key: EcdsaSecp256k1PublicKey,
    pub owner_badge: NonFungibleGlobalId,
    pub is_registered: bool,
}

/// The methods of the epoch manager.
#[derive(Debug, Clone, Copy, PartialEq, Eq)]
pub enum EpochManagerMethod {
    NextRound,
    GetCurrentEpoch,
    CreateValidator,
    UpdateValidator,
    SetEpoch,
}

/// What a caller must show to call an epoch manager method.
#[derive(Debug, Clone, Copy, PartialEq, Eq)]
pub enum MethodRule {
    /// Anyone may call it.
    AllowAll,
    /// Only a validator, by the validator role badge.
    RequireValidatorRole,
    /// Only the system, by the system role badge.
    RequireSystemRole,
    /// Only the package, by the package token whose local id is the encoded address of this
    /// package.
    RequirePackageToken(PackageAddress),
}

/// Whether `m` holds exactly one validator for each created validator component: the one at
/// `created[i].0`, with the key `keys[i]` and the stake `created[i].1`.
pub open spec fn built_validators(
    m: Map<Seq<u8>, Validator>,
    keys: Seq<EcdsaSecp256k1PublicKey>,
    created: Seq<(ComponentAddress, Decimal)>,
) -> bool {
    &&& forall|i: int| 0 <= i < created.len() ==> m.contains_key(#[trigger] created[i].0@)
        && m[created[i].0@] == (Validator { key: keys[i], stake: created[i].1 })
    &&& forall|a: Seq<u8>| #[trigger] m.contains_key(a) ==> exists|i: int| 0 <= i < created.len() && created[i].0@ == a
}

/// Whether the created validator components have distinct addresses.
pub open spec fn distinct_addresses(created: Seq<(ComponentAddress, Decimal)>) -> bool {
    forall|i: int, j: int| 0 <= i < created.len() && 0 <= j < created.len() && i != j ==>
        #[trigger] created[i].0@ != #[trigger] created[j].0@
}

/// The validators of a new epoch manager: for the i-th of the initial keys, the validator
/// component created for it, `created[i].0`, with that key and the stake deposited for it,
/// `created[i].1`.
pub fn initial_validators(
    keys: &Vec<EcdsaSecp256k1PublicKey>,
    created: &Vec<(ComponentAddress, Decimal)>,
) -> (r: AssocMap<ComponentAddress, Validator>)
    requires
        keys@.len() == created@.len(),
        distinct_addresses(created@),
    ensures
        r.wf(),
        built_validators(r@, keys@, created@),
{
    let mut r: AssocMap<ComponentAddress, Validator> = AssocMap::new();
    let n = created.len();
    let mut i: usize = 0;
    while i < n
        invariant
            n == created@.len(),
            keys@.len() == n,
            distinct_addresses(created@),
            i <= n,
            r.wf(),
            forall|j: int| 0 <= j < i ==> r@.contains_key(#[trigger] created@[j].0@)
                && r@[created@[j].0@] == (Validator { key: keys@[j], stake: created@[j].1 }),
            forall|a: Seq<u8>| #[trigger] r@.contains_key(a) ==> exists|j: int| 0 <= j < i && created@[j].0@ == a,
        decreases n - i,
    {
        let (address, stake) = created[i];
        let ghost before = r@;
        r.insert(address, Validator { key: keys[i], stake });
        proof {
            assert forall|j: int| 0 <= j < i + 1 implies r@.contains_key(#[trigger] created@[j].0@)
                && r@[created@[j].0@] == (Validator { key: keys@[j], stake: created@[j].1 }) by {
                if j < i {
                    assert(created@[j].0@ != created@[i as int].0@);
                }
            }
            assert forall|a: Seq<u8>| #[trigger] r@.contains_key(a) implies exists|j: int| 0 <= j < i + 1 && created@[j].0@ == a by {
                if a == address@ {
                    assert(created@[i as int].0@ == a);
                } else {
                    assert(before.contains_key(a));
                }
            }
        }
        i = i + 1;
    }
    r
}

/// The rules that a new epoch manager sets on its methods: moving to the next round takes the
/// validator role; reading the epoch and creating a validator are open to all; updating a
/// validator takes the package token of `epoch_manager_package`; setting the epoch takes the
/// system role.
pub fn epoch_manager_access_rules(epoch_manager_package: PackageAddress) -> (r: Vec<(EpochManagerMethod, MethodRule)>)
    ensures
        r@ == seq![
            (EpochManagerMethod::NextRound, MethodRule::RequireValidatorRole),
            (EpochManagerMethod::GetCurrentEpoch, MethodRule::AllowAll),
            (EpochManagerMethod::CreateValidator, MethodRule::AllowAll),
            (EpochManagerMethod::UpdateValidator, MethodRule::RequirePackageToken(epoch_manager_package)),
            (EpochManagerMethod::SetEpoch, MethodRule::RequireSystemRole),
        ],
{
    let mut r: Vec<(EpochManagerMethod, MethodRule)> = Vec::new();
    r.push((EpochManagerMethod::NextRound, MethodRule::RequireValidatorRole));
    r.push((EpochManagerMethod::GetCurrentEpoch, MethodRule::AllowAll));
    r.push((EpochManagerMethod::CreateValidator, MethodRule::AllowAll));
    r.push((EpochManagerMethod::UpdateValidator, MethodRule::RequirePackageToken(epoch_manager_package)));
    r.push((EpochManagerMethod::SetEpoch, MethodRule::RequireSystemRole));
    assert(r@ =~= seq![
        (EpochManagerMethod::NextRound, MethodRule::RequireValidatorRole),
        (EpochManagerMethod::GetCurrentEpoch, MethodRule::AllowAll),
        (EpochManagerMethod::CreateValidator, MethodRule::AllowAll),
        (EpochManagerMethod::UpdateValidator, MethodRule::RequirePackageToken(epoch_manager_package)),
        (EpochManagerMethod::SetEpoch, MethodRule::RequireSystemRole),
    ]);
    r
}

/// Emitted when a new round starts within the same epoch.
#[derive(Debug, Clone, Copy, PartialEq, Eq)]
pub struct RoundChangeEvent {
    pub round: u64,
}

/// Emitted when a new epoch starts, with the validators that serve in it.
pub struct EpochChangeEvent {
    pub epoch: u64,
    pub validators: AssocMap<ComponentAddress, Validator>,
}

/// What the epoch manager announces after a round update.
pub enum EpochManagerEvent {
    RoundChange(RoundChangeEvent),
    EpochChange(EpochChangeEvent),
}

/// The three substates of an epoch manager: its own, the validator set of the current
/// epoch, and the validator set that is being prepared for the next one.
pub struct EpochManagerState {
    pub manager: EpochManagerSubstate,
    pub current_validator_set: ValidatorSetSubstate,
    pub preparing_validator_set: ValidatorSetSubstate,
}

/// The epoch manager's state as mathematical values.
pub struct EpochManagerModel {
    pub manager: EpochManagerSubstate,
    pub current_epoch: u64,
    pub current_validators: Map<Seq<u8>, Validator>,
    pub preparing_epoch: u64,
    pub preparing_validators: Map<Seq<u8>, Validator>,
}

impl View for EpochManagerState {
    type V = EpochManagerModel;

    open spec fn view(&self) -> EpochManagerModel {
        EpochManagerModel {
            manager: self.manager,
            current_epoch: self.current_validator_set.epoch,
            current_validators: self.current_validator_set.validator_set@,
            preparing_epoch: self.preparing_validator_set.epoch,
            preparing_validators: self.preparing_validator_set.validator_set@,
        }
    }
}

impl EpochManagerState {
    /// Both validator sets are well formed.
    pub open spec fn wf(&self) -> bool {
        self.current_validator_set.validator_set.wf() && self.preparing_validator_set.validator_set.wf()
    }
}

/// Whether a round update to `round` is accepted: rounds only move forward.
pub open spec fn round_accepted(m: EpochManagerModel, round: u64) -> bool {
    round > m.manager.round
}

/// Whether an accepted round update to `round` ends the epoch.
pub open spec fn round_ends_epoch(m: EpochManagerModel, round: u64) -> bool {
    round_accepted(m, round) && round >= m.manager.rounds_per_epoch
}

/// The state after an accepted round update to `round`. When the round reaches the number
/// of rounds per epoch, the prepared epoch becomes current with its validator set, the round
/// starts again at zero and preparation moves on to the epoch after; otherwise only the
/// round changes.
pub open spec fn after_round(m: EpochManagerModel, round: u64) -> EpochManagerModel {
    if round >= m.manager.rounds_per_epoch {
        EpochManagerModel {
            manager: EpochManagerSubstate { epoch: m.preparing_epoch, round: 0, ..m.manager },
            current_epoch: m.preparing_epoch,
            current_validators: m.preparing_validators,
            preparing_epoch: (m.preparing_epoch + 1) as u64,
            preparing_validators: m.preparing_validators,
        }
    } else {
        EpochManagerModel { manager: EpochManagerSubstate { round, ..m.manager }, ..m }
    }
}

/// The state after a validator update: only the validator set being prepared changes.
pub open spec fn after_validator_update(
    m: EpochManagerModel,
    validator_address: ComponentAddress,
    update: UpdateValidator,
) -> EpochManagerModel {
    EpochManagerModel {
        preparing_validators: match update {
            UpdateValidator::Register(key, stake) => m.preparing_validators.insert(
                validator_address@,
                Validator { key, stake },
            ),
            UpdateValidator::Unregister => m.preparing_validators.remove(validator_address@),
        },
        ..m
    }
}

/// Whether the epochs of the three substates agree: the current validator set is that of
/// the manager's epoch, and the one being prepared is for the epoch after.
pub open spec fn epochs_aligned(m: EpochManagerModel) -> bool {
    &&& m.current_epoch == m.manager.epoch
    &&& m.preparing_epoch == m.manager.epoch + 1
}

/// The epoch manager blueprint's logic.
pub struct EpochManagerBlueprint;

impl EpochManagerBlueprint {
    /// A new epoch manager at `address`, whose validator owner badges are of
    /// `validator_owner_resource`. For the i-th of the initial validator keys, `created[i]` is
    /// the validator component that was created for it and the stake deposited with it; each
    /// becomes a validator with that key and stake. The manager starts at round zero of
    /// `initial_epoch`, with these validators both current and prepared for the next epoch. Also
    /// given back: the event that announces the first epoch, and the rules set on the manager's
    /// methods, where updating a validator takes the package token of `epoch_manager_package`.
    pub fn create(
        address: ComponentAddress,
        validator_owner_resource: ResourceAddress,
        epoch_manager_package: PackageAddress,
        keys: &Vec<EcdsaSecp256k1PublicKey>,
        created: &Vec<(ComponentAddress, Decimal)>,
        initial_epoch: u64,
        rounds_per_epoch: u64,
        num_unstake_epochs: u64,
    ) -> (r: (EpochManagerState, EpochChangeEvent, Vec<(EpochManagerMethod, MethodRule)>))
        requires
            keys@.len() == created@.len(),
            distinct_addresses(created@),
            initial_epoch < u64::MAX,
        ensures
            r.0.wf(),
            r.0@.manager == (EpochManagerSubstate {
                address,
                validator_owner_resource,
                epoch: initial_epoch,
                round: 0,
                rounds_per_epoch,
                num_unstake_epochs,
            }),
            r.0@.current_epoch == initial_epoch,
            built_validators(r.0@.current_validators, keys@, created@),
            r.0@.preparing_epoch == initial_epoch + 1,
            r.0@.preparing_validators == r.0@.current_validators,
            epochs_aligned(r.0@),
            r.1.epoch == initial_epoch,
            r.1.validators@ == r.0@.current_validators,
            r.1.validators.wf(),
            r.2@ == seq![
                (EpochManagerMethod::NextRound, MethodRule::RequireValidatorRole),
                (EpochManagerMethod::GetCurrentEpoch, MethodRule::AllowAll),
                (EpochManagerMethod::CreateValidator, MethodRule::AllowAll),
                (EpochManagerMethod::UpdateValidator, MethodRule::RequirePackageToken(epoch_manager_package)),
                (EpochManagerMethod::SetEpoch, MethodRule::RequireSystemRole),
            ],
    {
        let validators = initial_validators(keys, created);
        let manager = EpochManagerSubstate {
            address,
            validator_owner_resource,
            epoch: initial_epoch,
            round: 0,
            rounds_per_epoch,
            num_unstake_epochs,
        };
        let current_validator_set = ValidatorSetSubstate {
            epoch: initial_epoch,
            validator_set: validators.duplicate(),
        };
        let preparing_validator_set = ValidatorSetSubstate {
            epoch: initial_epoch + 1,
            validator_set: validators.duplicate(),
        };
        let state = EpochManagerState { manager, current_validator_set, preparing_validator_set };
        (state, EpochChangeEvent { epoch: initial_epoch, validators }, epoch_manager_access_rules(epoch_manager_package))
    }

    /// Creates a validator with the key `key`, once a non-fungible with local id
    /// `owner_local_id` has been minted from the manager's validator owner resource: the
    /// validator belongs to this manager, starts unregistered, and its owner is whoever holds
    /// that non-fungible.
    pub fn create_validator(
        epoch_manager: &EpochManagerSubstate,
        key: EcdsaSecp256k1PublicKey,
        owner_local_id: NonFungibleLocalId,
    ) -> (r: ValidatorCreation)
        ensures
            r.manager == epoch_manager.address,
            r.key == key,
            r.owner_badge.resource_address == epoch_manager.validator_owner_resource,
            r.owner_badge.local_id == owner_local_id,
            !r.is_registered,
    {
        let owner_badge = NonFungibleGlobalId::new(epoch_manager.validator_owner_resource, owner_local_id);
        ValidatorCreation { manager: epoch_manager.address, key, owner_badge, is_registered: false }
    }

    /// The current epoch.
    pub fn get_current_epoch(epoch_manager: &EpochManagerSubstate) -> (r: u64)
        ensures
            r == epoch_manager.epoch,
    {
        epoch_manager.epoch
    }

    /// Sets the epoch, and nothing else.
    pub fn set_epoch(epoch_manager: &mut EpochManagerSubstate, epoch: u64)
        ensures
            *final(epoch_manager) == (EpochManagerSubstate { epoch, ..*old(epoch_manager) }),
    {
        epoch_manager.epoch = epoch;
    }

    /// Moves to round `round`. A round that is not after the current one is refused with
    /// `InvalidRoundUpdate` and nothing changes. A round at or past the number of rounds per
    /// epoch starts the prepared epoch and announces it with its validators; any other round
    /// is simply recorded and announced.
    pub fn next_round(state: &mut EpochManagerState, round: u64) -> (r: Result<EpochManagerEvent, EpochManagerError>)
        requires
            old(state).wf(),
            round_ends_epoch(old(state)@, round) ==> old(state).preparing_validator_set.epoch < u64::MAX,
        ensures
            final(state).wf(),
            match r {
                Ok(EpochManagerEvent::RoundChange(e)) => {
                    &&& round_accepted(old(state)@, round)
                    &&& !round_ends_epoch(old(state)@, round)
                    &&& e.round == round
                    &&& final(state)@ == after_round(old(state)@, round)
                },
                Ok(EpochManagerEvent::EpochChange(e)) => {
                    &&& round_ends_epoch(old(state)@, round)
                    &&& e.epoch == old(state)@.preparing_epoch
                    &&& e.validators@ == old(state)@.preparing_validators
                    &&& e.validators.wf()
                    &&& final(state)@ == after_round(old(state)@, round)
                },
                Err(e) => {
                    &&& !round_accepted(old(state)@, round)
                    &&& e == EpochManagerError::InvalidRoundUpdate { from: old(state)@.manager.round, to: round }
                    &&& final(state)@ == old(state)@
                },
            },
    {
        if round <= state.manager.round {
            return Err(EpochManagerError::InvalidRoundUpdate { from: state.manager.round, to: round });
        }
        if round >= state.manager.rounds_per_epoch {
            let prepared_epoch = state.preparing_validator_set.epoch;
            let next_validator_set = state.preparing_validator_set.validator_set.duplicate();
            state.preparing_validator_set.epoch = prepared_epoch + 1;
            state.manager.epoch = prepared_epoch;
            state.manager.round = 0;
            state.current_validator_set.epoch = prepared_epoch;
            state.current_validator_set.validator_set = next_validator_set.duplicate();
            Ok(EpochManagerEvent::EpochChange(EpochChangeEvent { epoch: prepared_epoch, validators: next_validator_set }))
        } else {
            state.manager.round = round;
            Ok(EpochManagerEvent::RoundChange(RoundChangeEvent { round }))
        }
    }

    /// Registers or unregisters a validator in the set being prepared for the next epoch.
    pub fn update_validator(
        state: &mut EpochManagerState,
        validator_address: ComponentAddress,
        update: UpdateValidator,
    )
        requires
            old(state).wf(),
        ensures
            final(state).wf(),
            final(state)@ == after_validator_update(old(state)@, validator_address, update),
    {
        match update {
            UpdateValidator::Register(key, stake) => {
                state.preparing_validator_set.validator_set.insert(validator_address, Validator { key, stake });
            },
            UpdateValidator::Unregister => {
                let _ = state.preparing_validator_set.validator_set.remove(&validator_address);
            },
        }
    }
}

/// Every accepted round update keeps the epochs aligned, and moves the epoch forward by at
/// most one: by one exactly when the epoch ends, in which case the round starts again at zero.
pub proof fn lemma_round_keeps_epochs_aligned(m: EpochManagerModel, round: u64)
    requires
        epochs_aligned(m),
        m.preparing_epoch < u64::MAX,
        round_accepted(m, round),
    ensures
        epochs_aligned(after_round(m, round)),
        round_ends_epoch(m, round) ==> after_round(m, round).manager.epoch == m.manager.epoch + 1
            && after_round(m, round).manager.round == 0,
        !round_ends_epoch(m, round) ==> after_round(m, round).manager.epoch == m.manager.epoch
            && after_round(m, round).manager.round == round
            && after_round(m, round).manager.round > m.manager.round,
{
}

/// A validator update touches neither the epochs nor the current validator set.
pub proof fn lemma_validator_update_keeps_current_set(
    m: EpochManagerModel,
    validator_address: ComponentAddress,
    update: UpdateValidator,
)
    ensures
        after_validator_update(m, validator_address, update).current_validators == m.current_validators,
        after_validator_update(m, validator_address, update).manager == m.manager,
        epochs_aligned(m) ==> epochs_aligned(after_validator_update(m, validator_address, update)),
{
}

/// A validator registered while an epoch is being prepared is part of the validator set,
/// with the key and stake it was registered with, once that epoch starts.
pub proof fn lemma_registration_takes_effect_at_epoch_change(
    m: EpochManagerModel,
    validator_address: ComponentAddress,
    key: EcdsaSecp256k1PublicKey,
    stake: Decimal,
    round: u64,
)
    requires
        round_ends_epoch(m, round),
    ensures
        ({
            let registered = after_validator_update(m, validator_address, UpdateValidator::Register(key, stake));
            let next = after_round(registered, round);
            &&& next.current_validators.dom().contains(validator_address@)
            &&& next.current_validators[validator_address@] == (Validator { key, stake })
        }),
{
}

/// A validator unregistered while an epoch is being prepared is not part of the validator
/// set once that epoch starts.
pub proof fn lemma_unregistration_takes_effect_at_epoch_change(
    m: EpochManagerModel,
    validator_address: ComponentAddress,
    round: u64,
)
    requires
        round_ends_epoch(m, round),
    ensures
        ({
            let unregistered = after_validator_update(m, validator_address, UpdateValidator::Unregister);
            !after_round(unregistered, round).current_validators.dom().contains(validator_address@)
        }),
{
}


/// A round update never touches the validator set being prepared: at an epoch change it
/// becomes the current set and is carried on, unchanged, as the set prepared for the epoch
/// after; so, with no validator updates in between, two epoch changes in a row announce the
/// same validators.
pub proof fn lemma_epoch_change_carries_the_prepared_set_on(m: EpochManagerModel, round: u64, next: u64)
    ensures
        after_round(m, round).preparing_validators == m.preparing_validators,
        round_ends_epoch(m, round) ==> after_round(m, round).current_validators == m.preparing_validators,
        round_ends_epoch(m, round) && round_ends_epoch(after_round(m, round), next) ==>
            after_round(after_round(m, round), next).current_validators == m.preparing_validators
            && after_round(after_round(m, round), next).current_validators
                == after_round(m, round).current_validators,
        !round_ends_epoch(m, round) && round_accepted(m, round) ==>
            after_round(m, round).current_validators == m.current_validators
            && after_round(m, round).current_epoch == m.current_epoch
            && after_round(m, round).preparing_epoch == m.preparing_epoch,
{
}
} // verus!
