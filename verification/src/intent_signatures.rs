use vstd::prelude::*;

use crate::preparation::{PrepareError, ValueType};

verus! {

/// A signature of an intent, as its encoded bytes.
#[derive(Debug, Clone, PartialEq, Eq)]
pub struct IntentSignatureV1(pub Vec<u8>);

/// The signatures of one intent.
#[derive(Debug, Clone, PartialEq, Eq)]
pub struct IntentSignaturesV2 {
    pub signatures: Vec<IntentSignatureV1>,
}

/// The signatures of each subintent of a transaction, in order.
#[derive(Debug, Clone, PartialEq, Eq)]
pub struct MultipleIntentSignaturesV2 {
    pub by_subintent: Vec<IntentSignaturesV2>,
}

/// What preparing a value gives besides the value: its length and its hash.
#[derive(Debug, Clone, Copy, PartialEq, Eq)]
pub struct Summary {
    pub effective_length: usize,
    pub total_bytes_hashed: usize,
    pub hash: [u8; 32],
}

/// The signatures of one intent, prepared: the value with its summary.
#[derive(Debug, Clone, PartialEq, Eq)]
pub struct PreparedIntentSignaturesV2 {
    pub inner: IntentSignaturesV2,
    pub summary: Summary,
}

/// The signatures of each subintent of a transaction, prepared.
#[derive(Debug, Clone, PartialEq, Eq)]
pub struct PreparedMultipleIntentSignaturesV2 {
    pub by_subintent: Vec<PreparedIntentSignaturesV2>,
    pub summary: Summary,
}

impl PreparedMultipleIntentSignaturesV2 {
    /// The prepared signatures of the subintents, with the summary of their array; a
    /// transaction with more than `max_subintents` sets of signatures is refused with
    /// `TooManyValues`.
    pub fn prepare_from_values(
        by_subintent: Vec<PreparedIntentSignaturesV2>,
        summary: Summary,
        max_subintents: usize,
    ) -> (r: Result<Self, PrepareError>)
        ensures
            by_subintent@.len() <= max_subintents ==> r == Ok::<Self, PrepareError>(
                PreparedMultipleIntentSignaturesV2 { by_subintent, summary },
            ),
            by_subintent@.len() > max_subintents ==> r == Err::<Self, PrepareError>(PrepareError::TooManyValues {
                value_type: ValueType::IntentSignatures,
                actual: by_subintent@.len() as usize,
                max: max_subintents,
            }),
    {
        let actual = by_subintent.len();
        if actual > max_subintents {
            Err(PrepareError::TooManyValues { value_type: ValueType::IntentSignatures, actual, max: max_subintents })
        } else {
            Ok(PreparedMultipleIntentSignaturesV2 { by_subintent, summary })
        }
    }
}

} // verus!
