use vstd::prelude::*;

use crate::static_resource_movements::ids_view;
use crate::types::{ComponentAddress, Decimal, LocalIdView, NonFungibleLocalId, ResourceAddress};

verus! {

/// An expression that names a set of buckets when the manifest runs.
#[derive(Debug, Clone, Copy, PartialEq, Eq, Structural)]
pub enum ManifestExpression {
    /// Every resource on the worktop, each in a bucket of its own.
    EntireWorktop,
}

/// A bucket of a manifest, by its name.
#[derive(Debug, Clone, PartialEq, Eq)]
pub struct ManifestBucket {
    pub name: String,
}

/// Finds the buckets of a manifest that is being built, by name.
#[derive(Debug, Clone, Copy, PartialEq, Eq)]
pub struct ManifestNameLookup {}

impl ManifestNameLookup {
    /// The bucket named `name`.
    pub fn bucket(&self, name: &str) -> (r: ManifestBucket)
        ensures
            r.name@ == name@,
    {
        ManifestBucket { name: name.to_owned() }
    }
}

/// One instruction of a manifest, as far as resource movements are concerned.
#[derive(Debug, Clone, PartialEq, Eq)]
pub enum ManifestInstruction {
    /// Locks a fee in an account and withdraws an amount of a resource from it to the worktop.
    LockFeeAndWithdraw { account: ComponentAddress, fee: Decimal, resource: ResourceAddress, amount: Decimal },
    /// Locks a fee in an account and withdraws some non-fungibles from it to the worktop.
    LockFeeAndWithdrawNonFungibles {
        account: ComponentAddress,
        fee: Decimal,
        resource: ResourceAddress,
        ids: Vec<NonFungibleLocalId>,
    },
    /// Takes all of a resource from the worktop into a new named bucket.
    TakeAllFromWorktop { resource: ResourceAddress, new_bucket: String },
    /// Takes an exact amount of a resource from the worktop into a new named bucket.
    TakeFromWorktop { resource: ResourceAddress, amount: Decimal, new_bucket: String },
    /// Asserts that the worktop holds some of a resource.
    AssertWorktopContainsAny { resource: ResourceAddress },
    /// Asserts that the worktop holds at least an amount of a resource.
    AssertWorktopContains { resource: ResourceAddress, amount: Decimal },
    /// Asserts that the worktop is empty.
    AssertWorktopIsEmpty,
    /// Puts the resources of a named bucket back on the worktop.
    ReturnToWorktop { bucket: String },
    /// Deposits the given buckets into an account, together.
    DepositBuckets { account: ComponentAddress, buckets: Vec<ManifestBucket> },
    /// Asserts that the worktop holds the given non-fungibles of a resource.
    AssertWorktopContainsNonFungibles { resource: ResourceAddress, ids: Vec<NonFungibleLocalId> },
    /// Deposits a named bucket into an account.
    Deposit { account: ComponentAddress, bucket: String },
    /// Deposits the buckets that an expression names into an account.
    DepositBatch { account: ComponentAddress, expression: ManifestExpression },
    /// Calls a method whose effect on resources is not known.
    CallMethod { address: ComponentAddress, method_name: String },
    /// Hands control back to the parent intent, passing it nothing.
    YieldToParent,
}

/// An instruction as mathematical values.
pub enum InstructionView {
    LockFeeAndWithdraw { account: Seq<u8>, fee: int, resource: Seq<u8>, amount: int },
    LockFeeAndWithdrawNonFungibles { account: Seq<u8>, fee: int, resource: Seq<u8>, ids: Seq<LocalIdView> },
    TakeAllFromWorktop { resource: Seq<u8>, new_bucket: Seq<char> },
    TakeFromWorktop { resource: Seq<u8>, amount: int, new_bucket: Seq<char> },
    AssertWorktopContainsAny { resource: Seq<u8> },
    AssertWorktopContainsNonFungibles { resource: Seq<u8>, ids: Seq<LocalIdView> },
    AssertWorktopContains { resource: Seq<u8>, amount: int },
    AssertWorktopIsEmpty,
    ReturnToWorktop { bucket: Seq<char> },
    DepositBuckets { account: Seq<u8>, buckets: Seq<Seq<char>> },
    Deposit { account: Seq<u8>, bucket: Seq<char> },
    DepositEntireWorktop { account: Seq<u8> },
    CallMethod { address: Seq<u8>, method_name: Seq<char> },
    YieldToParent,
}

impl View for ManifestInstruction {
    type V = InstructionView;

    open spec fn view(&self) -> InstructionView {
        match self {
            ManifestInstruction::LockFeeAndWithdraw { account, fee, resource, amount } =>
                InstructionView::LockFeeAndWithdraw {
                    account: account@,
                    fee: fee.attos as int,
                    resource: resource@,
                    amount: amount.attos as int,
                },
            ManifestInstruction::LockFeeAndWithdrawNonFungibles { account, fee, resource, ids } =>
                InstructionView::LockFeeAndWithdrawNonFungibles {
                    account: account@,
                    fee: fee.attos as int,
                    resource: resource@,
                    ids: ids_view(ids@),
                },
            ManifestInstruction::TakeAllFromWorktop { resource, new_bucket } =>
                InstructionView::TakeAllFromWorktop { resource: resource@, new_bucket: new_bucket@ },
            ManifestInstruction::TakeFromWorktop { resource, amount, new_bucket } =>
                InstructionView::TakeFromWorktop { resource: resource@, amount: amount.attos as int, new_bucket: new_bucket@ },
            ManifestInstruction::AssertWorktopContainsAny { resource } =>
                InstructionView::AssertWorktopContainsAny { resource: resource@ },
            ManifestInstruction::AssertWorktopContainsNonFungibles { resource, ids } =>
                InstructionView::AssertWorktopContainsNonFungibles { resource: resource@, ids: ids_view(ids@) },
            ManifestInstruction::AssertWorktopContains { resource, amount } =>
                InstructionView::AssertWorktopContains { resource: resource@, amount: amount.attos as int },
            ManifestInstruction::AssertWorktopIsEmpty => InstructionView::AssertWorktopIsEmpty,
            ManifestInstruction::ReturnToWorktop { bucket } => InstructionView::ReturnToWorktop { bucket: bucket@ },
            ManifestInstruction::DepositBuckets { account, buckets } =>
                InstructionView::DepositBuckets { account: account@, buckets: bucket_names(buckets@) },
            ManifestInstruction::Deposit { account, bucket } =>
                InstructionView::Deposit { account: account@, bucket: bucket@ },
            ManifestInstruction::DepositBatch { account, expression: _ } =>
                InstructionView::DepositEntireWorktop { account: account@ },
            ManifestInstruction::CallMethod { address, method_name } =>
                InstructionView::CallMethod { address: address@, method_name: method_name@ },
            ManifestInstruction::YieldToParent => InstructionView::YieldToParent,
        }
    }
}

/// The names of a list of buckets.
pub open spec fn bucket_names(s: Seq<ManifestBucket>) -> Seq<Seq<char>> {
    s.map_values(|b: ManifestBucket| b.name@)
}

/// The views of a list of instructions.
pub open spec fn instructions_view(s: Seq<ManifestInstruction>) -> Seq<InstructionView> {
    s.map_values(|i: ManifestInstruction| i@)
}

/// A manifest: its instructions, in order, and whether it is that of a subintent.
#[derive(Debug, Clone, PartialEq, Eq)]
pub struct Manifest {
    pub instructions: Vec<ManifestInstruction>,
    pub is_subintent: bool,
}

impl Manifest {
    /// Whether this is the manifest of a subintent.
    pub fn is_subintent(&self) -> (r: bool)
        ensures
            r == self.is_subintent,
    {
        self.is_subintent
    }
}

/// Builds a manifest instruction by instruction.
#[derive(Debug, Clone, PartialEq, Eq)]
pub struct ManifestBuilder {
    pub instructions: Vec<ManifestInstruction>,
    pub is_subintent: bool,
}

impl ManifestBuilder {
    /// A builder for the manifest of a transaction intent.
    pub fn new_v2() -> (r: Self)
        ensures
            r.instructions@.len() == 0,
            !r.is_subintent,
    {
        ManifestBuilder { instructions: Vec::new(), is_subintent: false }
    }

    /// A builder for the manifest of a subintent.
    pub fn new_subintent_v2() -> (r: Self)
        ensures
            r.instructions@.len() == 0,
            r.is_subintent,
    {
        ManifestBuilder { instructions: Vec::new(), is_subintent: true }
    }

    /// This builder with one more instruction.
    pub fn add_instruction(self, instruction: ManifestInstruction) -> (r: Self)
        ensures
            r.instructions@ == self.instructions@.push(instruction),
            r.is_subintent == self.is_subintent,
    {
        let mut b = self;
        b.instructions.push(instruction);
        b
    }

    /// Locks `fee` in `account` and withdraws `amount` of `resource` from it.
    pub fn lock_fee_and_withdraw(self, account: ComponentAddress, fee: Decimal, resource: ResourceAddress, amount: Decimal) -> (r: Self)
        ensures
            r.instructions@ == self.instructions@.push(ManifestInstruction::LockFeeAndWithdraw { account, fee, resource, amount }),
            r.is_subintent == self.is_subintent,
    {
        self.add_instruction(ManifestInstruction::LockFeeAndWithdraw { account, fee, resource, amount })
    }

    /// Locks `fee` in `account` and withdraws the non-fungibles `ids` of `resource` from it.
    pub fn lock_fee_and_withdraw_non_fungibles(
        self,
        account: ComponentAddress,
        fee: Decimal,
        resource: ResourceAddress,
        ids: Vec<NonFungibleLocalId>,
    ) -> (r: Self)
        ensures
            r.instructions@ == self.instructions@.push(ManifestInstruction::LockFeeAndWithdrawNonFungibles { account, fee, resource, ids }),
            r.is_subintent == self.is_subintent,
    {
        self.add_instruction(ManifestInstruction::LockFeeAndWithdrawNonFungibles { account, fee, resource, ids })
    }

    /// Takes all of `resource` from the worktop into the bucket `new_bucket`.
    pub fn take_all_from_worktop(self, resource: ResourceAddress, new_bucket: &str) -> (r: Self)
        ensures
            r.instructions@.len() == self.instructions@.len() + 1,
            r.instructions@.drop_last() == self.instructions@,
            r.instructions@.last()@ == (InstructionView::TakeAllFromWorktop { resource: resource@, new_bucket: new_bucket@ }),
            r.is_subintent == self.is_subintent,
    {
        self.add_instruction(ManifestInstruction::TakeAllFromWorktop { resource, new_bucket: new_bucket.to_owned() })
    }

    /// Takes exactly `amount` of `resource` from the worktop into the bucket `new_bucket`.
    pub fn take_from_worktop(self, resource: ResourceAddress, amount: Decimal, new_bucket: &str) -> (r: Self)
        ensures
            r.instructions@.len() == self.instructions@.len() + 1,
            r.instructions@.drop_last() == self.instructions@,
            r.instructions@.last()@ == (InstructionView::TakeFromWorktop {
                resource: resource@,
                amount: amount.attos as int,
                new_bucket: new_bucket@,
            }),
            r.is_subintent == self.is_subintent,
    {
        self.add_instruction(ManifestInstruction::TakeFromWorktop { resource, amount, new_bucket: new_bucket.to_owned() })
    }

    /// Asserts that the worktop holds some of `resource`.
    pub fn assert_worktop_contains_any(self, resource: ResourceAddress) -> (r: Self)
        ensures
            r.instructions@ == self.instructions@.push(ManifestInstruction::AssertWorktopContainsAny { resource }),
            r.is_subintent == self.is_subintent,
    {
        self.add_instruction(ManifestInstruction::AssertWorktopContainsAny { resource })
    }

    /// Asserts that the worktop holds the non-fungibles `ids` of `resource`.
    pub fn assert_worktop_contains_non_fungibles(self, resource: ResourceAddress, ids: Vec<NonFungibleLocalId>) -> (r: Self)
        ensures
            r.instructions@ == self.instructions@.push(ManifestInstruction::AssertWorktopContainsNonFungibles { resource, ids }),
            r.is_subintent == self.is_subintent,
    {
        self.add_instruction(ManifestInstruction::AssertWorktopContainsNonFungibles { resource, ids })
    }

    /// Finds the buckets of the manifest by name.
    pub fn name_lookup(&self) -> (r: ManifestNameLookup) {
        ManifestNameLookup {}
    }

    /// Asserts that the worktop holds at least `amount` of `resource`.
    pub fn assert_worktop_contains(self, resource: ResourceAddress, amount: Decimal) -> (r: Self)
        ensures
            r.instructions@ == self.instructions@.push(ManifestInstruction::AssertWorktopContains { resource, amount }),
            r.is_subintent == self.is_subintent,
    {
        self.add_instruction(ManifestInstruction::AssertWorktopContains { resource, amount })
    }

    /// Asserts that the worktop is empty.
    pub fn assert_worktop_is_empty(self) -> (r: Self)
        ensures
            r.instructions@ == self.instructions@.push(ManifestInstruction::AssertWorktopIsEmpty),
            r.is_subintent == self.is_subintent,
    {
        self.add_instruction(ManifestInstruction::AssertWorktopIsEmpty)
    }

    /// Puts the resources of the bucket `bucket` back on the worktop.
    pub fn return_to_worktop(self, bucket: &str) -> (r: Self)
        ensures
            r.instructions@.len() == self.instructions@.len() + 1,
            r.instructions@.drop_last() == self.instructions@,
            r.instructions@.last()@ == (InstructionView::ReturnToWorktop { bucket: bucket@ }),
            r.is_subintent == self.is_subintent,
    {
        self.add_instruction(ManifestInstruction::ReturnToWorktop { bucket: bucket.to_owned() })
    }

    /// Deposits the buckets `buckets` into `account`, together.
    pub fn deposit_buckets(self, account: ComponentAddress, buckets: Vec<ManifestBucket>) -> (r: Self)
        ensures
            r.instructions@ == self.instructions@.push(ManifestInstruction::DepositBuckets { account, buckets }),
            r.is_subintent == self.is_subintent,
    {
        self.add_instruction(ManifestInstruction::DepositBuckets { account, buckets })
    }

    /// Deposits the bucket `bucket` into `account`.
    pub fn deposit(self, account: ComponentAddress, bucket: &str) -> (r: Self)
        ensures
            r.instructions@.len() == self.instructions@.len() + 1,
            r.instructions@.drop_last() == self.instructions@,
            r.instructions@.last()@ == (InstructionView::Deposit { account: account@, bucket: bucket@ }),
            r.is_subintent == self.is_subintent,
    {
        self.add_instruction(ManifestInstruction::Deposit { account, bucket: bucket.to_owned() })
    }

    /// Deposits the buckets that `expression` names into `account`.
    pub fn deposit_batch(self, account: ComponentAddress, expression: ManifestExpression) -> (r: Self)
        ensures
            r.instructions@ == self.instructions@.push(ManifestInstruction::DepositBatch { account, expression }),
            r.is_subintent == self.is_subintent,
    {
        self.add_instruction(ManifestInstruction::DepositBatch { account, expression })
    }

    /// Calls the method `method_name` of `address`, with no arguments.
    pub fn call_method(self, address: ComponentAddress, method_name: &str, args: ()) -> (r: Self)
        ensures
            r.instructions@.len() == self.instructions@.len() + 1,
            r.instructions@.drop_last() == self.instructions@,
            r.instructions@.last()@ == (InstructionView::CallMethod { address: address@, method_name: method_name@ }),
            r.is_subintent == self.is_subintent,
    {
        self.add_instruction(ManifestInstruction::CallMethod { address, method_name: method_name.to_owned() })
    }

    /// Hands control back to the parent intent, passing it nothing.
    pub fn yield_to_parent(self, args: ()) -> (r: Self)
        ensures
            r.instructions@ == self.instructions@.push(ManifestInstruction::YieldToParent),
            r.is_subintent == self.is_subintent,
    {
        self.add_instruction(ManifestInstruction::YieldToParent)
    }

    /// The manifest that was built.
    pub fn build(self) -> (r: Manifest)
        ensures
            r.instructions@ == self.instructions@,
            r.is_subintent == self.is_subintent,
    {
        Manifest { instructions: self.instructions, is_subintent: self.is_subintent }
    }
}

} // verus!
