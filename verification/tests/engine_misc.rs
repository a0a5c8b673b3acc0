use radix_engine::custom_schema::PackageAddress;
use radix_engine::resolve_method::{
    ComponentInfo, GlobalAddress, NodeModuleId, RENodeId, ScryptoReceiver, SubstateLockRequest, SubstateOffset,
    resolve_method, type_info_lock, type_info_node,
};
use radix_engine::system::{
    AuthModuleBadges, DecodeError, HardAuthRule, HardProofRule, HardResourceOrNonFungible, MethodAuthorization,
    System, SystemCreateInput, SystemError, SystemFunction, SystemMethod, SystemMethodInput, SystemMethodOutput,
    SystemSubstate,
};
use radix_engine::types::{ComponentAddress, TransactionHash, NonFungibleGlobalId, NonFungibleLocalId, ResourceAddress};

fn badges() -> AuthModuleBadges {
    AuthModuleBadges {
        system: NonFungibleGlobalId { resource_address: ResourceAddress([1; 30]), local_id: NonFungibleLocalId::Integer(1) },
        supervisor: NonFungibleGlobalId { resource_address: ResourceAddress([1; 30]), local_id: NonFungibleLocalId::Integer(0) },
    }
}

fn needs_badge(badge: NonFungibleGlobalId) -> MethodAuthorization {
    MethodAuthorization::Protected(HardAuthRule::ProofRule(HardProofRule::Require(HardResourceOrNonFungible::NonFungible(badge))))
}

#[test]
fn creating_the_system_takes_the_system_badge() {
    assert_eq!(System::function_auth(&SystemFunction::Create, &badges()), vec![needs_badge(badges().system)]);
}

#[test]
fn only_setting_the_epoch_takes_the_supervisor_badge() {
    assert_eq!(System::method_auth(&SystemMethod::SetEpoch, &badges()), vec![needs_badge(badges().supervisor)]);
    assert!(System::method_auth(&SystemMethod::GetCurrentEpoch, &badges()).is_empty());
    assert!(System::method_auth(&SystemMethod::GetTransactionHash, &badges()).is_empty());
}

#[test]
fn system_methods() {
    let mut system = System::static_main(SystemFunction::Create, Ok(SystemCreateInput {})).unwrap();
    assert_eq!(system.info, SystemSubstate { epoch: 0 });
    let hash = TransactionHash([6; 32]);
    assert_eq!(System::main(&mut system, SystemMethodInput::SetEpoch { epoch: 12 }, hash), SystemMethodOutput::Unit);
    assert_eq!(System::main(&mut system, SystemMethodInput::GetCurrentEpoch, hash), SystemMethodOutput::Epoch(12));
    assert_eq!(System::main(&mut system, SystemMethodInput::GetTransactionHash, hash), SystemMethodOutput::TransactionHash(hash));
    assert_eq!(system.info.epoch, 12);
}

#[test]
fn creating_the_system_with_undecodable_input_is_refused() {
    let error = DecodeError("unexpected end of input".to_string());
    assert_eq!(
        System::static_main(SystemFunction::Create, Err(error.clone())),
        Err(SystemError::InvalidRequestData(error))
    );
}

#[test]
fn receivers_map_to_their_nodes() {
    let component = ComponentAddress([2; 30]);
    let resource = ResourceAddress([3; 30]);
    assert_eq!(type_info_node(ScryptoReceiver::Global(component)), RENodeId::Global(GlobalAddress::Component(component)));
    assert_eq!(type_info_node(ScryptoReceiver::Resource(resource)), RENodeId::Global(GlobalAddress::Resource(resource)));
    assert_eq!(type_info_node(ScryptoReceiver::Component([4; 36])), RENodeId::Component([4; 36]));
    assert_eq!(type_info_node(ScryptoReceiver::Vault([5; 36])), RENodeId::Vault([5; 36]));
    assert_eq!(type_info_node(ScryptoReceiver::Bucket(7)), RENodeId::Bucket(7));
    assert_eq!(type_info_node(ScryptoReceiver::Proof(8)), RENodeId::Proof(8));
    assert_eq!(type_info_node(ScryptoReceiver::Worktop), RENodeId::Worktop);
    assert_eq!(type_info_node(ScryptoReceiver::Logger), RENodeId::Logger);
    assert_eq!(type_info_node(ScryptoReceiver::TransactionRuntime), RENodeId::TransactionRuntime);
    assert_eq!(type_info_node(ScryptoReceiver::AuthZoneStack), RENodeId::AuthZoneStack);
}

#[test]
fn resolve_method_targets_the_receivers_blueprint() {
    let info = ComponentInfo { package_address: PackageAddress([9; 30]), blueprint_name: "Account".to_string() };
    let receiver = ScryptoReceiver::Global(ComponentAddress([2; 30]));
    let invocation = resolve_method::<String>(receiver, "deposit", &[1, 2, 3], Ok(info)).unwrap();
    assert_eq!(invocation.package_address, PackageAddress([9; 30]));
    assert_eq!(invocation.blueprint_name, "Account");
    assert_eq!(invocation.receiver, Some(receiver));
    assert_eq!(invocation.fn_name, "deposit");
    assert_eq!(invocation.args, vec![1, 2, 3]);
}

#[test]
fn resolve_method_locks_the_type_info_and_passes_kernel_errors_on() {
    let receiver = ScryptoReceiver::Vault([5; 36]);
    assert_eq!(
        type_info_lock(receiver),
        SubstateLockRequest {
            node: RENodeId::Vault([5; 36]),
            module: NodeModuleId::ComponentTypeInfo,
            offset: SubstateOffset::ComponentTypeInfo,
            read_only: true,
        }
    );
    let r = resolve_method::<String>(receiver, "take", &[], Err("node not found".to_string()));
    assert_eq!(r, Err("node not found".to_string()));
}
