use vstd::prelude::*;

verus! {

/// Limits on what a transaction payload may hold when it is prepared.
#[derive(Debug, Clone, Copy, PartialEq, Eq)]
pub struct PreparationSettings {
    pub max_user_payload_length: usize,
    pub max_ledger_payload_length: usize,
    pub max_child_subintents_per_intent: usize,
    pub max_subintents_per_transaction: usize,
    pub max_blobs: usize,
}

/// The kind of payload that is being prepared.
#[derive(Debug, Clone, Copy, PartialEq, Eq)]
pub enum TransactionPayloadKind {
    CompleteUserTransaction,
    LedgerTransaction,
    Other,
}

/// The kinds of value whose number a transaction limits.
#[derive(Debug, Clone, Copy, PartialEq, Eq)]
pub enum ValueType {
    Blob,
    Message,
    Subintent,
    ChildIntentConstraint,
    IntentSignatures,
}

/// Why a payload could not be prepared.
#[derive(Debug, Clone, PartialEq, Eq)]
pub enum PrepareError {
    TransactionTooLarge,
    TooManyValues { value_type: ValueType, actual: usize, max: usize },
    LengthOverflow,
    UnexpectedDiscriminator { expected: u8, actual: u8 },
    Other(String),
}

/// The largest payload, in bytes, that a payload of the given kind may have, if it is limited.
pub open spec fn payload_limit(settings: PreparationSettings, kind: TransactionPayloadKind) -> Option<usize> {
    match kind {
        TransactionPayloadKind::CompleteUserTransaction => Some(settings.max_user_payload_length),
        TransactionPayloadKind::LedgerTransaction => Some(settings.max_ledger_payload_length),
        TransactionPayloadKind::Other => None,
    }
}

impl PreparationSettings {
    /// The settings in force now: those of Cuttlefish.
    pub fn latest() -> (r: Self)
        ensures
            r == Self::cuttlefish_spec(),
    {
        Self::cuttlefish()
    }

    /// The Babylon settings: user payloads of up to 1 MiB, ledger payloads 10 bytes more, no
    /// subintents, and up to 64 blobs.
    pub open spec fn babylon_spec() -> Self {
        PreparationSettings {
            max_user_payload_length: 1048576usize,
            max_ledger_payload_length: 1048586usize,
            max_child_subintents_per_intent: 0,
            max_subintents_per_transaction: 0,
            max_blobs: 64,
        }
    }

    /// The Cuttlefish settings: those of Babylon, with up to 128 subintents per transaction
    /// and up to 128 child subintents per intent.
    pub open spec fn cuttlefish_spec() -> Self {
        PreparationSettings {
            max_child_subintents_per_intent: 128,
            max_subintents_per_transaction: 128,
            ..Self::babylon_spec()
        }
    }

    /// The Babylon settings.
    pub fn babylon() -> (r: Self)
        ensures
            r == Self::babylon_spec(),
    {
        let max_user_payload_length: usize = 1 * 1024 * 1024;
        PreparationSettings {
            max_user_payload_length,
            max_ledger_payload_length: max_user_payload_length + 10,
            max_child_subintents_per_intent: 0,
            max_subintents_per_transaction: 0,
            max_blobs: 64,
        }
    }

    /// The Cuttlefish settings.
    pub fn cuttlefish() -> (r: Self)
        ensures
            r == Self::cuttlefish_spec(),
    {
        PreparationSettings {
            max_child_subintents_per_intent: 128,
            max_subintents_per_transaction: 128,
            ..Self::babylon()
        }
    }

    /// Checks the length of a payload of the given kind: a user or ledger payload longer than
    /// its limit is refused with `TransactionTooLarge`; other payloads are not limited.
    pub fn check_len(&self, kind: TransactionPayloadKind, payload_len: usize) -> (r: Result<(), PrepareError>)
        ensures
            match payload_limit(*self, kind) {
                Some(max) => if payload_len > max {
                    r == Err::<(), PrepareError>(PrepareError::TransactionTooLarge)
                } else {
                    r is Ok
                },
                None => r is Ok,
            },
    {
        match kind {
            TransactionPayloadKind::CompleteUserTransaction => {
                if payload_len > self.max_user_payload_length {
                    return Err(PrepareError::TransactionTooLarge);
                }
            },
            TransactionPayloadKind::LedgerTransaction => {
                if payload_len > self.max_ledger_payload_length {
                    return Err(PrepareError::TransactionTooLarge);
                }
            },
            TransactionPayloadKind::Other => {},
        }
        Ok(())
    }
}

/// Checks the discriminator read for an enum variant against the one expected: any other is
/// refused with `UnexpectedDiscriminator`, naming both.
pub fn check_enum_variant(expected_discriminator: u8, discriminator: u8) -> (r: Result<(), PrepareError>)
    ensures
        discriminator == expected_discriminator ==> r is Ok,
        discriminator != expected_discriminator ==> r == Err::<(), PrepareError>(PrepareError::UnexpectedDiscriminator {
            expected: expected_discriminator,
            actual: discriminator,
        }),
{
    if discriminator != expected_discriminator {
        return Err(PrepareError::UnexpectedDiscriminator { expected: expected_discriminator, actual: discriminator });
    }
    Ok(())
}

/// A ledger payload may be longer than a user payload, but every payload a user may submit
/// may also stand on the ledger, under both the Babylon and the Cuttlefish settings.
pub proof fn lemma_user_payloads_fit_the_ledger(payload_len: usize)
    ensures
        payload_len <= PreparationSettings::babylon_spec().max_user_payload_length ==>
            payload_len <= PreparationSettings::babylon_spec().max_ledger_payload_length,
        payload_len <= PreparationSettings::cuttlefish_spec().max_user_payload_length ==>
            payload_len <= PreparationSettings::cuttlefish_spec().max_ledger_payload_length,
{
}

} // verus!
