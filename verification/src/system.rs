use vstd::prelude::*;

use crate::types::{LocalIdView, NonFungibleGlobalId, ResourceAddress};

verus! {

/// The system's substate: the current epoch.
#[derive(Debug, Clone, Copy, PartialEq, Eq)]
pub struct SystemSubstate {
    pub epoch: u64,
}

/// The system component.
#[derive(Debug, Clone, Copy, PartialEq, Eq)]
pub struct System {
    pub info: SystemSubstate,
}

/// Why the input of a call could not be read: the decoder's message.
#[derive(Debug, Clone, PartialEq, Eq)]
pub struct DecodeError(pub String);

/// The input of the function that creates the system.
#[derive(Debug, Clone, Copy, PartialEq, Eq)]
pub struct SystemCreateInput {}

/// Why a call to the system failed.
#[derive(Debug, Clone, PartialEq, Eq)]
pub enum SystemError {
    /// The call's input could not be decoded as the function's input.
    InvalidRequestData(DecodeError),
}

/// The functions of the system blueprint.
#[derive(Debug, Clone, Copy, PartialEq, Eq)]
pub enum SystemFunction {
    Create,
}

/// The methods of the system component.
#[derive(Debug, Clone, Copy, PartialEq, Eq)]
pub enum SystemMethod {
    GetCurrentEpoch,
    SetEpoch,
    GetTransactionHash,
}

/// A method call on the system component, with its decoded input.
#[derive(Debug, Clone, Copy, PartialEq, Eq)]
pub enum SystemMethodInput {
    GetCurrentEpoch,
    SetEpoch { epoch: u64 },
    GetTransactionHash,
}

/// What a method call on the system component returns.
#[derive(Debug, Clone, Copy, PartialEq, Eq)]
pub enum SystemMethodOutput {
    Epoch(u64),
    Unit,
    TransactionHash(crate::types::TransactionHash),
}

/// A resource, or one non-fungible of a resource.
#[derive(Debug, Clone, PartialEq, Eq)]
pub enum HardResourceOrNonFungible {
    NonFungible(NonFungibleGlobalId),
    Resource(ResourceAddress),
}

/// A resource, or one non-fungible of a resource, as mathematical values.
pub open spec fn badge_view(b: HardResourceOrNonFungible) -> (ResourceAddress, Option<LocalIdView>) {
    match b {
        HardResourceOrNonFungible::NonFungible(g) => (g.resource_address, Some(g.local_id@)),
        HardResourceOrNonFungible::Resource(a) => (a, None),
    }
}

/// A rule on the proofs in the auth zone.
#[derive(Debug, Clone, PartialEq, Eq)]
pub enum HardProofRule {
    Require(HardResourceOrNonFungible),
}

/// An authorization rule.
#[derive(Debug, Clone, PartialEq, Eq)]
pub enum HardAuthRule {
    ProofRule(HardProofRule),
}

/// What a caller must show to call a function or method.
#[derive(Debug, Clone, PartialEq, Eq)]
pub enum MethodAuthorization {
    Protected(HardAuthRule),
}

/// The badges of the auth module: the non-fungibles of the system token that stand for the
/// system and for the supervisor.
#[derive(Debug, Clone, PartialEq, Eq)]
pub struct AuthModuleBadges {
    pub system: NonFungibleGlobalId,
    pub supervisor: NonFungibleGlobalId,
}

/// The non-fungible whose proof an authorization demands, if it demands one.
pub open spec fn required_badge(auth: MethodAuthorization) -> Option<(ResourceAddress, LocalIdView)> {
    match auth {
        MethodAuthorization::Protected(HardAuthRule::ProofRule(HardProofRule::Require(
            HardResourceOrNonFungible::NonFungible(g),
        ))) => Some((g.resource_address, g.local_id@)),
        _ => None,
    }
}

/// An authorization that demands a proof of `badge`.
fn require_badge(badge: &NonFungibleGlobalId) -> (r: MethodAuthorization)
    ensures
        required_badge(r) == Some((badge.resource_address, badge.local_id@)),
{
    MethodAuthorization::Protected(HardAuthRule::ProofRule(HardProofRule::Require(
        HardResourceOrNonFungible::NonFungible(NonFungibleGlobalId::new(
            badge.resource_address,
            badge.local_id.duplicate(),
        )),
    )))
}

impl System {
    /// What calling a system function demands: creating the system takes the system badge.
    pub fn function_auth(func: &SystemFunction, badges: &AuthModuleBadges) -> (r: Vec<MethodAuthorization>)
        ensures
            r@.len() == 1,
            required_badge(r@[0]) == Some((badges.system.resource_address, badges.system.local_id@)),
    {
        match func {
            SystemFunction::Create => {
                let mut v: Vec<MethodAuthorization> = Vec::new();
                v.push(require_badge(&badges.system));
                v
            },
        }
    }

    /// What calling a system method demands: setting the epoch takes the supervisor badge;
    /// the other methods demand nothing.
    pub fn method_auth(method: &SystemMethod, badges: &AuthModuleBadges) -> (r: Vec<MethodAuthorization>)
        ensures
            *method == SystemMethod::SetEpoch ==> r@.len() == 1
                && required_badge(r@[0]) == Some((badges.supervisor.resource_address, badges.supervisor.local_id@)),
            *method != SystemMethod::SetEpoch ==> r@.len() == 0,
    {
        match method {
            SystemMethod::SetEpoch => {
                let mut v: Vec<MethodAuthorization> = Vec::new();
                v.push(require_badge(&badges.supervisor));
                v
            },
            _ => Vec::new(),
        }
    }

    /// Runs a system function, given what decoding its input gave: creating the system gives a
    /// new system node at epoch zero, which the engine then globalizes; input that could not be
    /// decoded is refused with `InvalidRequestData`.
    pub fn static_main(func: SystemFunction, input: Result<SystemCreateInput, DecodeError>) -> (r: Result<System, SystemError>)
        ensures
            match input {
                Ok(_) => r == Ok::<System, SystemError>(System { info: SystemSubstate { epoch: 0 } }),
                Err(e) => r == Err::<System, SystemError>(SystemError::InvalidRequestData(e)),
            },
    {
        match func {
            SystemFunction::Create => {
                match input {
                    Ok(_) => Ok(System { info: SystemSubstate { epoch: 0 } }),
                    Err(e) => Err(SystemError::InvalidRequestData(e)),
                }
            },
        }
    }

    /// Runs a system method: reading the epoch gives it back, setting it replaces it, and
    /// reading the transaction hash gives back `transaction_hash`, that of the running
    /// transaction.
    pub fn main(system: &mut System, input: SystemMethodInput, transaction_hash: crate::types::TransactionHash) -> (r: SystemMethodOutput)
        ensures
            match input {
                SystemMethodInput::GetCurrentEpoch => r == SystemMethodOutput::Epoch(old(system).info.epoch)
                    && *final(system) == *old(system),
                SystemMethodInput::SetEpoch { epoch } => r == SystemMethodOutput::Unit
                    && final(system).info.epoch == epoch,
                SystemMethodInput::GetTransactionHash => r == SystemMethodOutput::TransactionHash(transaction_hash)
                    && *final(system) == *old(system),
            },
    {
        match input {
            SystemMethodInput::GetCurrentEpoch => SystemMethodOutput::Epoch(system.info.epoch),
            SystemMethodInput::SetEpoch { epoch } => {
                system.info.epoch = epoch;
                SystemMethodOutput::Unit
            },
            SystemMethodInput::GetTransactionHash => SystemMethodOutput::TransactionHash(transaction_hash),
        }
    }
}

} // verus!
