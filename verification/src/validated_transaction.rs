use vstd::prelude::*;

use crate::assoc_map::{AssocMap, KeyEq, bytes_eq};
use crate::types::{Decimal, NodeId, copy_bytes};

verus! {

/// A public key that signs transactions.
#[derive(Debug, Clone, Copy, PartialEq, Eq)]
pub enum PublicKey {
    Secp256k1([u8; 33]),
    Ed25519([u8; 32]),
}

/// A public key as a mathematical value: its kind and its bytes.
pub open spec fn public_key_view(k: PublicKey) -> (bool, Seq<u8>) {
    match k {
        PublicKey::Secp256k1(b) => (true, b@),
        PublicKey::Ed25519(b) => (false, b@),
    }
}

impl View for PublicKey {
    type V = (bool, Seq<u8>);

    open spec fn view(&self) -> (bool, Seq<u8>) {
        public_key_view(*self)
    }
}

impl KeyEq for PublicKey {
    fn key_eq(&self, other: &Self) -> (r: bool) {
        match (self, other) {
            (PublicKey::Secp256k1(a), PublicKey::Secp256k1(b)) => bytes_eq(a.as_slice(), b.as_slice()),
            (PublicKey::Ed25519(a), PublicKey::Ed25519(b)) => bytes_eq(a.as_slice(), b.as_slice()),
            _ => false,
        }
    }
}

/// The header of a transaction intent.
#[derive(Debug, Clone, Copy, PartialEq, Eq)]
pub struct TransactionHeaderV1 {
    pub network_id: u8,
    pub start_epoch_inclusive: u64,
    pub end_epoch_exclusive: u64,
    pub nonce: u32,
    pub notary_public_key: PublicKey,
    pub notary_is_signatory: bool,
    pub tip_percentage: u16,
}

/// A blob of a transaction intent, under its hash.
pub struct Blob {
    pub hash: [u8; 32],
    pub content: Vec<u8>,
}

/// A prepared notarized transaction, as far as execution needs it.
pub struct PreparedNotarizedTransactionV1 {
    pub intent_hash: [u8; 32],
    pub header: TransactionHeaderV1,
    pub references: Vec<NodeId>,
    pub blobs: Vec<Blob>,
    pub effective_length: usize,
}

/// A notarized transaction that passed validation.
pub struct ValidatedNotarizedTransactionV1 {
    pub prepared: PreparedNotarizedTransactionV1,
    pub encoded_instructions: Vec<u8>,
    pub signer_keys: Vec<PublicKey>,
    pub num_of_signature_validations: usize,
}

/// The intent hash of a transaction, to be checked against the intents already committed
/// until the epoch at which the intent expires.
#[derive(Debug, Clone, Copy, PartialEq, Eq)]
pub enum TransactionIntentHash {
    ToCheck { intent_hash: [u8; 32], expiry_epoch: u64 },
    NotToCheck { intent_hash: [u8; 32] },
}

/// A range of epochs.
#[derive(Debug, Clone, Copy, PartialEq, Eq)]
pub struct EpochRange {
    pub start_epoch_inclusive: u64,
    pub end_epoch_exclusive: u64,
}

/// The proofs that the auth zone starts with: the signature badge of each signer key, and
/// the resources that are virtually present.
pub struct AuthZoneParams {
    pub initial_proofs: AssocMap<PublicKey, ()>,
    pub virtual_resources: Vec<NodeId>,
}

/// How a transaction is charged.
#[derive(Debug, Clone, Copy, PartialEq, Eq)]
pub struct TransactionCostingParameters {
    pub tip_percentage: u16,
    pub free_credit_in_xrd: Decimal,
    pub abort_when_loan_repaid: bool,
}

/// The context in which a transaction executes.
pub struct ExecutionContext {
    pub intent_hash: TransactionIntentHash,
    pub epoch_range: Option<EpochRange>,
    pub payload_size: usize,
    pub num_of_signature_validations: usize,
    pub auth_zone_params: AuthZoneParams,
    pub costing_parameters: TransactionCostingParameters,
    pub pre_allocated_addresses: Vec<NodeId>,
}

/// A transaction ready to execute.
pub struct Executable {
    pub encoded_instructions: Vec<u8>,
    pub references: Vec<NodeId>,
    pub blobs: Vec<Blob>,
    pub context: ExecutionContext,
    pub system: bool,
}

fn copy_references(v: &Vec<NodeId>) -> (r: Vec<NodeId>)
    ensures
        r@ == v@,
{
    let mut r: Vec<NodeId> = Vec::new();
    let n = v.len();
    let mut i: usize = 0;
    while i < n
        invariant
            n == v@.len(),
            i <= n,
            r@ == v@.take(i as int),
        decreases n - i,
    {
        r.push(v[i]);
        i = i + 1;
        assert(r@ =~= v@.take(i as int));
    }
    assert(r@ =~= v@);
    r
}

/// Whether two lists of blobs hold the same hashes and contents.
pub open spec fn same_blobs(a: Seq<Blob>, b: Seq<Blob>) -> bool {
    &&& a.len() == b.len()
    &&& forall|i: int| 0 <= i < a.len() ==> #[trigger] a[i].hash == b[i].hash && a[i].content@ == b[i].content@
}

fn copy_blobs(v: &Vec<Blob>) -> (r: Vec<Blob>)
    ensures
        same_blobs(r@, v@),
{
    let mut r: Vec<Blob> = Vec::new();
    let n = v.len();
    let mut i: usize = 0;
    while i < n
        invariant
            n == v@.len(),
            i <= n,
            r@.len() == i,
            forall|j: int| 0 <= j < i ==> #[trigger] r@[j].hash == v@[j].hash && r@[j].content@ == v@[j].content@,
        decreases n - i,
    {
        r.push(Blob { hash: v[i].hash, content: copy_bytes(&v[i].content) });
        i = i + 1;
    }
    r
}

/// The set of the signer keys, each once.
fn signer_set(keys: &Vec<PublicKey>) -> (r: AssocMap<PublicKey, ()>)
    ensures
        r.wf(),
        forall|k: (bool, Seq<u8>)| r@.dom().contains(k) <==> exists|i: int| 0 <= i < keys@.len() && #[trigger] keys@[i]@ == k,
{
    let mut r: AssocMap<PublicKey, ()> = AssocMap::new();
    let n = keys.len();
    let mut i: usize = 0;
    while i < n
        invariant
            n == keys@.len(),
            i <= n,
            r.wf(),
            forall|k: (bool, Seq<u8>)| r@.dom().contains(k) <==> exists|j: int| 0 <= j < i && #[trigger] keys@[j]@ == k,
        decreases n - i,
    {
        let key = keys[i];
        r.insert(key, ());
        i = i + 1;
        assert forall|k: (bool, Seq<u8>)| r@.dom().contains(k) <==> exists|j: int| 0 <= j < i && #[trigger] keys@[j]@ == k by {
            if k == key@ {
                assert(keys@[i - 1]@ == k);
            }
            if exists|j: int| 0 <= j < i && #[trigger] keys@[j]@ == k {
                let j = choose|j: int| 0 <= j < i && #[trigger] keys@[j]@ == k;
                if j < i - 1 {
                } else {
                    assert(k == key@);
                }
            }
        }
    }
    r
}

impl ValidatedNotarizedTransactionV1 {
    /// The executable form of the transaction: its instructions, references and blobs; its
    /// intent hash, to be checked until the intent's end epoch; the epochs in which it may
    /// run; its payload size; its signature validations; an auth zone that starts with the
    /// signature badge of each signer; its tip, no free credit, and no abort on loan
    /// repayment; no pre-allocated addresses; and it is not a system transaction.
    pub fn get_executable(&self) -> (r: Executable)
        ensures
            r.encoded_instructions@ == self.encoded_instructions@,
            r.references@ == self.prepared.references@,
            same_blobs(r.blobs@, self.prepared.blobs@),
            r.context.intent_hash == (TransactionIntentHash::ToCheck {
                intent_hash: self.prepared.intent_hash,
                expiry_epoch: self.prepared.header.end_epoch_exclusive,
            }),
            r.context.epoch_range == Some(EpochRange {
                start_epoch_inclusive: self.prepared.header.start_epoch_inclusive,
                end_epoch_exclusive: self.prepared.header.end_epoch_exclusive,
            }),
            r.context.payload_size == self.prepared.effective_length,
            r.context.num_of_signature_validations == self.num_of_signature_validations,
            r.context.auth_zone_params.initial_proofs.wf(),
            forall|k: (bool, Seq<u8>)| r.context.auth_zone_params.initial_proofs@.dom().contains(k) <==>
                exists|i: int| 0 <= i < self.signer_keys@.len() && #[trigger] self.signer_keys@[i]@ == k,
            r.context.auth_zone_params.virtual_resources@.len() == 0,
            r.context.costing_parameters == (TransactionCostingParameters {
                tip_percentage: self.prepared.header.tip_percentage,
                free_credit_in_xrd: Decimal { attos: 0 },
                abort_when_loan_repaid: false,
            }),
            r.context.pre_allocated_addresses@.len() == 0,
            !r.system,
    {
        let header = &self.prepared.header;
        Executable {
            encoded_instructions: copy_bytes(&self.encoded_instructions),
            references: copy_references(&self.prepared.references),
            blobs: copy_blobs(&self.prepared.blobs),
            context: ExecutionContext {
                intent_hash: TransactionIntentHash::ToCheck {
                    intent_hash: self.prepared.intent_hash,
                    expiry_epoch: header.end_epoch_exclusive,
                },
                epoch_range: Some(EpochRange {
                    start_epoch_inclusive: header.start_epoch_inclusive,
                    end_epoch_exclusive: header.end_epoch_exclusive,
                }),
                payload_size: self.prepared.effective_length,
                num_of_signature_validations: self.num_of_signature_validations,
                auth_zone_params: AuthZoneParams {
                    initial_proofs: signer_set(&self.signer_keys),
                    virtual_resources: Vec::new(),
                },
                costing_parameters: TransactionCostingParameters {
                    tip_percentage: header.tip_percentage,
                    free_credit_in_xrd: Decimal::zero(),
                    abort_when_loan_repaid: false,
                },
                pre_allocated_addresses: Vec::new(),
            },
            system: false,
        }
    }
}

} // verus!
