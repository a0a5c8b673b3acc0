use radix_engine::resim::{Instruction, Mint, NewTokenMutable, Transfer};
use radix_engine::resource_manager::{
    AccessRule, EncodedNonFungibleData, MintParams, ResourceManager, ResourceManagerInvocation, ResourceMethodAuthKey,
};
use radix_engine::resolve_method::ScryptoReceiver;
use radix_engine::royalty::{
    ModuleHandle, Own, Royalty, RoyaltyCall, RoyaltyConfig, Runtime, ScryptoActor, ScryptoCall, ScryptoFunctionIdent,
    ScryptoMethodIdent, ScryptoPackage,
};
use radix_engine::custom_schema::PackageAddress;
use radix_engine::system::HardResourceOrNonFungible;
use radix_engine::types::{ComponentAddress, Decimal, EcdsaSecp256k1PublicKey, NonFungibleLocalId, ResourceAddress, ATTOS_PER_UNIT};
use radix_engine::validated_transaction::{
    PreparedNotarizedTransactionV1, PublicKey, TransactionHeaderV1, TransactionIntentHash, ValidatedNotarizedTransactionV1,
    Blob, EpochRange,
};

fn rm() -> ResourceManager {
    ResourceManager(ResourceAddress([3; 30]))
}

#[test]
fn setting_and_locking_rules() {
    let mut m = rm();
    assert_eq!(
        m.set_mintable(AccessRule::AllowAll),
        ResourceManagerInvocation::UpdateAuth { receiver: ResourceAddress([3; 30]), method: ResourceMethodAuthKey::Mint, access_rule: AccessRule::AllowAll }
    );
    assert!(matches!(m.set_burnable(AccessRule::DenyAll), ResourceManagerInvocation::UpdateAuth { method: ResourceMethodAuthKey::Burn, .. }));
    assert!(matches!(m.set_withdrawable(AccessRule::DenyAll), ResourceManagerInvocation::UpdateAuth { method: ResourceMethodAuthKey::Withdraw, .. }));
    assert!(matches!(m.set_depositable(AccessRule::DenyAll), ResourceManagerInvocation::UpdateAuth { method: ResourceMethodAuthKey::Deposit, .. }));
    assert!(matches!(m.set_recallable(AccessRule::DenyAll), ResourceManagerInvocation::UpdateAuth { method: ResourceMethodAuthKey::Recall, .. }));
    assert!(matches!(m.set_updateable_metadata(AccessRule::DenyAll), ResourceManagerInvocation::UpdateAuth { method: ResourceMethodAuthKey::UpdateMetadata, .. }));
    assert!(matches!(m.set_updateable_non_fungible_data(AccessRule::DenyAll), ResourceManagerInvocation::UpdateAuth { method: ResourceMethodAuthKey::UpdateNonFungibleData, .. }));
    assert_eq!(m.lock_mintable(), ResourceManagerInvocation::LockAuth { receiver: ResourceAddress([3; 30]), method: ResourceMethodAuthKey::Mint });
    assert!(matches!(m.lock_burnable(), ResourceManagerInvocation::LockAuth { method: ResourceMethodAuthKey::Burn, .. }));
    assert!(matches!(m.lock_withdrawable(), ResourceManagerInvocation::LockAuth { method: ResourceMethodAuthKey::Withdraw, .. }));
    assert!(matches!(m.lock_depositable(), ResourceManagerInvocation::LockAuth { method: ResourceMethodAuthKey::Deposit, .. }));
    assert!(matches!(m.lock_recallable(), ResourceManagerInvocation::LockAuth { method: ResourceMethodAuthKey::Recall, .. }));
    assert!(matches!(m.lock_updateable_metadata(), ResourceManagerInvocation::LockAuth { method: ResourceMethodAuthKey::UpdateMetadata, .. }));
    assert!(matches!(m.lock_updateable_non_fungible_data(), ResourceManagerInvocation::LockAuth { method: ResourceMethodAuthKey::UpdateNonFungibleData, .. }));
    assert_eq!(m, rm());
}

#[test]
fn minting_and_non_fungible_data_calls() {
    let mut m = rm();
    let amount = Decimal { attos: 5 * ATTOS_PER_UNIT };
    assert_eq!(m.mint(amount), ResourceManagerInvocation::Mint { receiver: ResourceAddress([3; 30]), mint_params: MintParams::Fungible { amount } });
    let d = EncodedNonFungibleData { immutable_data: vec![1], mutable_data: vec![2] };
    assert_eq!(
        m.mint_non_fungible(&NonFungibleLocalId::Integer(4), d.clone()),
        ResourceManagerInvocation::Mint {
            receiver: ResourceAddress([3; 30]),
            mint_params: MintParams::NonFungible { entries: vec![(NonFungibleLocalId::Integer(4), d)] },
        }
    );
    assert_eq!(
        m.get_non_fungible_data(&NonFungibleLocalId::Integer(4)),
        ResourceManagerInvocation::GetNonFungible { receiver: ResourceAddress([3; 30]), id: NonFungibleLocalId::Integer(4) }
    );
    assert_eq!(
        m.update_non_fungible_data(&NonFungibleLocalId::Integer(4), &vec![9, 9]),
        ResourceManagerInvocation::UpdateNonFungibleData { receiver: ResourceAddress([3; 30]), id: NonFungibleLocalId::Integer(4), data: vec![9, 9] }
    );
}

#[test]
fn royalty_calls() {
    let config = RoyaltyConfig { rules: vec![("f".to_string(), 3)], default_rule: 1 };
    assert_eq!(Royalty::new(config.clone()), RoyaltyCall::Create { royalty_config: config.clone() });
    assert_eq!(Royalty::default_call(), RoyaltyCall::Create { royalty_config: RoyaltyConfig { rules: vec![], default_rule: 0 } });
    let royalty = Royalty::from_created(Own([1; 30]));
    assert_eq!(*royalty.handle(), ModuleHandle::Own(Own([1; 30])));
    assert_eq!(royalty.set_config(config.clone()), RoyaltyCall::SetRoyaltyConfig { handle: ModuleHandle::Own(Own([1; 30])), royalty_config: config });
    assert_eq!(royalty.claim_royalty(), RoyaltyCall::ClaimRoyalty { handle: ModuleHandle::Own(Own([1; 30])) });
}

#[test]
fn package_address_of_the_actor() {
    let p = PackageAddress([8; 30]);
    assert_eq!(Runtime::package_address(&ScryptoActor::Blueprint(p, "B".to_string())), p);
    assert_eq!(Runtime::package_address(&ScryptoActor::Component([1; 36], p, "B".to_string())), p);
}

fn key(b: u8) -> EcdsaSecp256k1PublicKey {
    EcdsaSecp256k1PublicKey([b; 33])
}

#[test]
fn mint_command_plan() {
    let cmd = Mint {
        amount: Decimal { attos: 7 },
        resource_address: ResourceAddress([1; 30]),
        minter_resource_address: ResourceAddress([2; 30]),
        signers: None,
        manifest: None,
        trace: false,
    };
    let account = ComponentAddress([9; 30]);
    let plan = cmd.run(account, vec![key(1)]);
    assert_eq!(plan.signers, vec![key(1)]);
    assert_eq!(plan.instructions.len(), 3);
    assert!(matches!(&plan.instructions[0], Instruction::WithdrawFromAccount { resource_address, account: a } if *resource_address == ResourceAddress([2; 30]) && *a == account));
    assert!(matches!(&plan.instructions[1], Instruction::Mint { amount, .. } if *amount == Decimal { attos: 7 }));
    assert!(matches!(&plan.instructions[2], Instruction::CallMethodWithAllResources { component, method } if *component == account && method == "deposit_batch"));
    let with_signers = Mint { signers: Some(vec![key(2), key(3)]), ..cmd };
    assert_eq!(with_signers.run(account, vec![key(1)]).signers, vec![key(2), key(3)]);
}

#[test]
fn transfer_command_plan() {
    let cmd = Transfer {
        amount: Decimal { attos: 3 },
        resource_address: ResourceAddress([1; 30]),
        recipient: ComponentAddress([5; 30]),
        manifest: None,
        signers: Some(vec![key(4)]),
        trace: true,
    };
    let plan = cmd.run(ComponentAddress([9; 30]), vec![key(1)]);
    assert_eq!(plan.signers, vec![key(4)]);
    assert!(matches!(&plan.instructions[0], Instruction::WithdrawFromAccountByAmount { amount, account, .. } if *amount == Decimal { attos: 3 } && *account == ComponentAddress([9; 30])));
    assert!(matches!(&plan.instructions[1], Instruction::CallMethodWithAllResources { component, method } if *component == ComponentAddress([5; 30]) && method == "deposit_batch"));
}

#[test]
fn new_token_mutable_metadata() {
    let cmd = NewTokenMutable {
        minter_badge: HardResourceOrNonFungible::Resource(ResourceAddress([1; 30])),
        symbol: Some("XYZ".to_string()),
        name: None,
        description: Some("A token".to_string()),
        url: None,
        icon_url: Some("http://icon".to_string()),
        network: None,
        manifest: None,
        signing_keys: None,
        trace: false,
    };
    let metadata = cmd.metadata();
    assert_eq!(metadata.len(), 3);
    assert_eq!(metadata.get(&"symbol".to_string()), Some(&"XYZ".to_string()));
    assert_eq!(metadata.get(&"description".to_string()), Some(&"A token".to_string()));
    assert_eq!(metadata.get(&"icon_url".to_string()), Some(&"http://icon".to_string()));
    assert_eq!(metadata.get(&"name".to_string()), None);
    let instructions = cmd.run(ComponentAddress([7; 30]));
    assert_eq!(instructions.len(), 2);
    assert!(matches!(&instructions[0], Instruction::LockFee { component, amount } if *component == ComponentAddress([7; 30]) && *amount == Decimal { attos: 100 * ATTOS_PER_UNIT }));
    assert!(matches!(&instructions[1], Instruction::NewTokenMutable { metadata, minter_badge } if metadata.len() == 3 && *minter_badge == HardResourceOrNonFungible::Resource(ResourceAddress([1; 30]))));
}

#[test]
fn get_executable_carries_the_transaction() {
    let header = TransactionHeaderV1 {
        network_id: 1,
        start_epoch_inclusive: 10,
        end_epoch_exclusive: 20,
        nonce: 5,
        notary_public_key: PublicKey::Ed25519([1; 32]),
        notary_is_signatory: false,
        tip_percentage: 3,
    };
    let tx = ValidatedNotarizedTransactionV1 {
        prepared: PreparedNotarizedTransactionV1 {
            intent_hash: [4; 32],
            header,
            references: vec![],
            blobs: vec![Blob { hash: [2; 32], content: vec![1, 2, 3] }],
            effective_length: 321,
        },
        encoded_instructions: vec![9, 9],
        signer_keys: vec![PublicKey::Secp256k1([5; 33]), PublicKey::Secp256k1([5; 33]), PublicKey::Ed25519([6; 32])],
        num_of_signature_validations: 3,
    };
    let e = tx.get_executable();
    assert_eq!(e.encoded_instructions, vec![9, 9]);
    assert_eq!(e.blobs.len(), 1);
    assert_eq!(e.blobs[0].content, vec![1, 2, 3]);
    assert_eq!(e.context.intent_hash, TransactionIntentHash::ToCheck { intent_hash: [4; 32], expiry_epoch: 20 });
    assert_eq!(e.context.epoch_range, Some(EpochRange { start_epoch_inclusive: 10, end_epoch_exclusive: 20 }));
    assert_eq!(e.context.payload_size, 321);
    assert_eq!(e.context.num_of_signature_validations, 3);
    assert_eq!(e.context.auth_zone_params.initial_proofs.len(), 2);
    assert!(e.context.auth_zone_params.initial_proofs.contains_key(&PublicKey::Ed25519([6; 32])));
    assert_eq!(e.context.costing_parameters.tip_percentage, 3);
    assert_eq!(e.context.costing_parameters.free_credit_in_xrd, Decimal { attos: 0 });
    assert!(!e.context.costing_parameters.abort_when_loan_repaid);
    assert!(e.context.pre_allocated_addresses.is_empty());
    assert!(!e.system);
}

#[test]
fn runtime_calls_name_their_target() {
    let package = PackageAddress([7; 30]);
    assert_eq!(
        Runtime::call_function(package, "Hello", "instantiate", vec![1, 2]),
        ScryptoCall::Function {
            ident: ScryptoFunctionIdent {
                package: ScryptoPackage::Global(package),
                blueprint_name: "Hello".to_string(),
                function_name: "instantiate".to_string(),
            },
            args: vec![1, 2],
        }
    );
    let component = ComponentAddress([8; 30]);
    assert_eq!(
        Runtime::call_method(component, "free_token", vec![]),
        ScryptoCall::Method {
            ident: ScryptoMethodIdent { receiver: ScryptoReceiver::Global(component), method_name: "free_token".to_string() },
            args: vec![],
        }
    );
}
