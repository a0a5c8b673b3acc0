use vstd::prelude::*;

use crate::assoc_map::AssocMap;
use crate::system::{HardResourceOrNonFungible, badge_view};
use crate::types::{ComponentAddress, Decimal, EcdsaSecp256k1PublicKey, ResourceAddress};

verus! {

/// An instruction of a transaction manifest built by the simulator's commands.
#[derive(Debug)]
pub enum Instruction {
    LockFee { component: ComponentAddress, amount: Decimal },
    WithdrawFromAccount { resource_address: ResourceAddress, account: ComponentAddress },
    WithdrawFromAccountByAmount { amount: Decimal, resource_address: ResourceAddress, account: ComponentAddress },
    Mint { amount: Decimal, resource_address: ResourceAddress, minter_resource_address: ResourceAddress },
    CallMethodWithAllResources { component: ComponentAddress, method: String },
    NewTokenMutable { metadata: AssocMap<String, String>, minter_badge: HardResourceOrNonFungible },
}

/// A transaction to run: its instructions and the keys that sign it.
#[derive(Debug)]
pub struct TransactionPlan {
    pub instructions: Vec<Instruction>,
    pub signers: Vec<EcdsaSecp256k1PublicKey>,
}

/// Mint resource.
pub struct Mint {
    /// The amount of resource to mint.
    pub amount: Decimal,
    /// The resource to mint.
    pub resource_address: ResourceAddress,
    /// The resource of the minter badge.
    pub minter_resource_address: ResourceAddress,
    /// The transaction signers.
    pub signers: Option<Vec<EcdsaSecp256k1PublicKey>>,
    /// Where to write the transaction manifest instead of running it.
    pub manifest: Option<String>,
    /// Turn on tracing.
    pub trace: bool,
}

/// Transfer resource to another account.
pub struct Transfer {
    /// The amount to transfer.
    pub amount: Decimal,
    /// The resource to transfer.
    pub resource_address: ResourceAddress,
    /// The recipient component.
    pub recipient: ComponentAddress,
    /// Where to write the transaction manifest instead of running it.
    pub manifest: Option<String>,
    /// The transaction signers.
    pub signers: Option<Vec<EcdsaSecp256k1PublicKey>>,
    /// Turn on tracing.
    pub trace: bool,
}

/// Create a fungible token with mutable supply.
pub struct NewTokenMutable {
    /// The minter badge: a resource, or a non-fungible of one.
    pub minter_badge: HardResourceOrNonFungible,
    /// The symbol.
    pub symbol: Option<String>,
    /// The name.
    pub name: Option<String>,
    /// The description.
    pub description: Option<String>,
    /// The website URL.
    pub url: Option<String>,
    /// The icon URL.
    pub icon_url: Option<String>,
    /// The network to use when writing the manifest.
    pub network: Option<String>,
    /// Where to write the transaction manifest instead of running it.
    pub manifest: Option<String>,
    /// The private keys used for signing, separated by commas.
    pub signing_keys: Option<String>,
    /// Turn on tracing.
    pub trace: bool,
}

/// The method that deposits every resource handed to it into an account.
pub open spec fn deposit_batch() -> Seq<char> {
    "deposit_batch"@
}

fn copy_keys(keys: &Vec<EcdsaSecp256k1PublicKey>) -> (r: Vec<EcdsaSecp256k1PublicKey>)
    ensures
        r@ == keys@,
{
    let mut r: Vec<EcdsaSecp256k1PublicKey> = Vec::new();
    let n = keys.len();
    let mut i: usize = 0;
    while i < n
        invariant
            n == keys@.len(),
            i <= n,
            r@ == keys@.take(i as int),
        decreases n - i,
    {
        r.push(keys[i]);
        i = i + 1;
        assert(r@ =~= keys@.take(i as int));
    }
    assert(r@ =~= keys@);
    r
}

/// The signers to use: those given, else the default ones.
fn choose_signers(
    signers: &Option<Vec<EcdsaSecp256k1PublicKey>>,
    default_signers: Vec<EcdsaSecp256k1PublicKey>,
) -> (r: Vec<EcdsaSecp256k1PublicKey>)
    ensures
        r@ == match signers {
            Some(s) => s@,
            None => default_signers@,
        },
{
    match signers {
        Some(s) => copy_keys(s),
        None => default_signers,
    }
}

impl Mint {
    /// The transaction that mints: take a minter badge from the default account, mint, and
    /// deposit everything back into the default account; signed by the given signers, else
    /// by the default ones.
    pub fn run(&self, default_account: ComponentAddress, default_signers: Vec<EcdsaSecp256k1PublicKey>) -> (r: TransactionPlan)
        ensures
            r.instructions@.len() == 3,
            r.instructions@[0] == (Instruction::WithdrawFromAccount {
                resource_address: self.minter_resource_address,
                account: default_account,
            }),
            r.instructions@[1] == (Instruction::Mint {
                amount: self.amount,
                resource_address: self.resource_address,
                minter_resource_address: self.minter_resource_address,
            }),
            r.instructions@[2] matches Instruction::CallMethodWithAllResources { component, method }
                && component == default_account && method@ == deposit_batch(),
            r.signers@ == match self.signers {
                Some(s) => s@,
                None => default_signers@,
            },
    {
        let signers = choose_signers(&self.signers, default_signers);
        let mut instructions: Vec<Instruction> = Vec::new();
        instructions.push(Instruction::WithdrawFromAccount {
            resource_address: self.minter_resource_address,
            account: default_account,
        });
        instructions.push(Instruction::Mint {
            amount: self.amount,
            resource_address: self.resource_address,
            minter_resource_address: self.minter_resource_address,
        });
        let method = String::from_str("deposit_batch");
        proof { reveal_strlit("deposit_batch"); }
        instructions.push(Instruction::CallMethodWithAllResources { component: default_account, method });
        TransactionPlan { instructions, signers }
    }
}

impl Transfer {
    /// The transaction that transfers: withdraw the amount from the default account and
    /// deposit everything into the recipient; signed by the given signers, else by the
    /// default ones.
    pub fn run(&self, default_account: ComponentAddress, default_signers: Vec<EcdsaSecp256k1PublicKey>) -> (r: TransactionPlan)
        ensures
            r.instructions@.len() == 2,
            r.instructions@[0] == (Instruction::WithdrawFromAccountByAmount {
                amount: self.amount,
                resource_address: self.resource_address,
                account: default_account,
            }),
            r.instructions@[1] matches Instruction::CallMethodWithAllResources { component, method }
                && component == self.recipient && method@ == deposit_batch(),
            r.signers@ == match self.signers {
                Some(s) => s@,
                None => default_signers@,
            },
    {
        let signers = choose_signers(&self.signers, default_signers);
        let mut instructions: Vec<Instruction> = Vec::new();
        instructions.push(Instruction::WithdrawFromAccountByAmount {
            amount: self.amount,
            resource_address: self.resource_address,
            account: default_account,
        });
        let method = String::from_str("deposit_batch");
        proof { reveal_strlit("deposit_batch"); }
        instructions.push(Instruction::CallMethodWithAllResources { component: self.recipient, method });
        TransactionPlan { instructions, signers }
    }
}

/// The metadata entry that an optional field adds: under `key`, when the field is set.
pub open spec fn optional_entry(m: Map<Seq<char>, String>, key: Seq<char>, value: Option<String>) -> Map<Seq<char>, String> {
    match value {
        Some(v) => m.insert(key, v),
        None => m,
    }
}

/// The metadata of a new token: its symbol, name, description, URL and icon URL, each under
/// its own key when it is given.
pub open spec fn token_metadata(t: NewTokenMutable) -> Map<Seq<char>, String> {
    optional_entry(optional_entry(optional_entry(optional_entry(optional_entry(
        Map::empty(),
        "symbol"@, t.symbol), "name"@, t.name), "description"@, t.description), "url"@, t.url),
        "icon_url"@, t.icon_url)
}

fn add_optional_entry(metadata: &mut AssocMap<String, String>, key: &str, value: &Option<String>)
    requires
        old(metadata).wf(),
    ensures
        final(metadata).wf(),
        final(metadata)@ == optional_entry(old(metadata)@, key@, *value),
{
    if let Some(v) = value {
        metadata.insert(String::from_str(key), v.clone());
    }
}

impl NewTokenMutable {
    /// The metadata of the new token.
    pub fn metadata(&self) -> (r: AssocMap<String, String>)
        ensures
            r.wf(),
            r@ == token_metadata(*self),
    {
        let mut metadata: AssocMap<String, String> = AssocMap::new();
        add_optional_entry(&mut metadata, "symbol", &self.symbol);
        add_optional_entry(&mut metadata, "name", &self.name);
        add_optional_entry(&mut metadata, "description", &self.description);
        add_optional_entry(&mut metadata, "url", &self.url);
        add_optional_entry(&mut metadata, "icon_url", &self.icon_url);
        metadata
    }

    /// The transaction that creates the token: lock the fee at the faucet, then create a
    /// mutable-supply token with the metadata and the minter badge.
    pub fn run(&self, faucet: ComponentAddress) -> (r: Vec<Instruction>)
        ensures
            r@.len() == 2,
            r@[0] == (Instruction::LockFee { component: faucet, amount: Decimal { attos: 100_000_000_000_000_000_000 } }),
            r@[1] matches Instruction::NewTokenMutable { metadata, minter_badge }
                && metadata.wf() && metadata@ == token_metadata(*self)
                && badge_view(minter_badge) == badge_view(self.minter_badge),
    {
        let mut instructions: Vec<Instruction> = Vec::new();
        instructions.push(Instruction::LockFee { component: faucet, amount: Decimal::from_usize(100) });
        let minter_badge = match &self.minter_badge {
            HardResourceOrNonFungible::NonFungible(g) => HardResourceOrNonFungible::NonFungible(
                crate::types::NonFungibleGlobalId::new(g.resource_address, g.local_id.duplicate())),
            HardResourceOrNonFungible::Resource(a) => HardResourceOrNonFungible::Resource(*a),
        };
        instructions.push(Instruction::NewTokenMutable { metadata: self.metadata(), minter_badge });
        instructions
    }
}


/// Whether `m` holds the optional field `value` under `key`: the field's value when it is
/// given, and nothing under that key when it is not.
pub open spec fn holds_field(m: Map<Seq<char>, String>, key: Seq<char>, value: Option<String>) -> bool {
    match value {
        Some(v) => m.contains_key(key) && m[key] == v,
        None => !m.contains_key(key),
    }
}

/// A new token's metadata holds each of its five fields under its own key (symbol, name,
/// description, URL, icon URL), exactly when that field is given, and holds nothing else.
pub proof fn lemma_token_metadata_holds_each_given_field(t: NewTokenMutable)
    ensures
        holds_field(token_metadata(t), "symbol"@, t.symbol),
        holds_field(token_metadata(t), "name"@, t.name),
        holds_field(token_metadata(t), "description"@, t.description),
        holds_field(token_metadata(t), "url"@, t.url),
        holds_field(token_metadata(t), "icon_url"@, t.icon_url),
        forall|k: Seq<char>| #[trigger] token_metadata(t).contains_key(k) ==>
            k == "symbol"@ || k == "name"@ || k == "description"@ || k == "url"@ || k == "icon_url"@,
{
    reveal_strlit("symbol");
    reveal_strlit("name");
    reveal_strlit("description");
    reveal_strlit("url");
    reveal_strlit("icon_url");
    assert("symbol"@.len() == 6);
    assert("name"@.len() == 4);
    assert("description"@.len() == 11);
    assert("url"@.len() == 3);
    assert("icon_url"@.len() == 8);
}
} // verus!
