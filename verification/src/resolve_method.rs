use vstd::prelude::*;

use crate::custom_schema::PackageAddress;
use crate::types::{ComponentAddress, ResourceAddress};

verus! {

/// The id of a local (not yet global) component.
pub type ComponentId = [u8; 36];

/// The id of a vault.
pub type VaultId = [u8; 36];

/// The id of a bucket in the current call frame.
pub type BucketId = u32;

/// The id of a proof in the current call frame.
pub type ProofId = u32;

/// What a Scrypto method call is made on.
#[derive(Debug, Clone, Copy, PartialEq, Eq)]
pub enum ScryptoReceiver {
    Global(ComponentAddress),
    Resource(ResourceAddress),
    Component(ComponentId),
    Vault(VaultId),
    Bucket(BucketId),
    Proof(ProofId),
    Worktop,
    Logger,
    TransactionRuntime,
    AuthZoneStack,
}

/// A global address.
#[derive(Debug, Clone, Copy, PartialEq, Eq)]
pub enum GlobalAddress {
    Component(ComponentAddress),
    Resource(ResourceAddress),
}

/// The id of a node of the engine's state.
#[derive(Debug, Clone, Copy, PartialEq, Eq)]
pub enum RENodeId {
    Global(GlobalAddress),
    Component(ComponentId),
    Vault(VaultId),
    Bucket(BucketId),
    Proof(ProofId),
    Worktop,
    Logger,
    TransactionRuntime,
    AuthZoneStack,
}

/// The type information of a component: its package and its blueprint.
#[derive(Debug, Clone, PartialEq, Eq)]
pub struct ComponentInfo {
    pub package_address: PackageAddress,
    pub blueprint_name: String,
}

/// A call of a Scrypto function or method.
#[derive(Debug, Clone, PartialEq, Eq)]
pub struct ScryptoInvocation {
    pub package_address: PackageAddress,
    pub blueprint_name: String,
    pub receiver: Option<ScryptoReceiver>,
    pub fn_name: String,
    pub args: Vec<u8>,
}

/// The node that a receiver stands for.
pub open spec fn receiver_node(receiver: ScryptoReceiver) -> RENodeId {
    match receiver {
        ScryptoReceiver::Global(a) => RENodeId::Global(GlobalAddress::Component(a)),
        ScryptoReceiver::Resource(a) => RENodeId::Global(GlobalAddress::Resource(a)),
        ScryptoReceiver::Component(id) => RENodeId::Component(id),
        ScryptoReceiver::Vault(id) => RENodeId::Vault(id),
        ScryptoReceiver::Bucket(id) => RENodeId::Bucket(id),
        ScryptoReceiver::Proof(id) => RENodeId::Proof(id),
        ScryptoReceiver::Worktop => RENodeId::Worktop,
        ScryptoReceiver::Logger => RENodeId::Logger,
        ScryptoReceiver::TransactionRuntime => RENodeId::TransactionRuntime,
        ScryptoReceiver::AuthZoneStack => RENodeId::AuthZoneStack,
    }
}

/// The node whose type information decides which blueprint handles a call on `receiver`:
/// the global component or resource manager for a global receiver, the node of the same kind
/// and id otherwise.
pub fn type_info_node(receiver: ScryptoReceiver) -> (r: RENodeId)
    ensures
        r == receiver_node(receiver),
{
    match receiver {
        ScryptoReceiver::Global(component_address) => RENodeId::Global(GlobalAddress::Component(component_address)),
        ScryptoReceiver::Resource(resource_address) => RENodeId::Global(GlobalAddress::Resource(resource_address)),
        ScryptoReceiver::Component(component_id) => RENodeId::Component(component_id),
        ScryptoReceiver::Vault(vault_id) => RENodeId::Vault(vault_id),
        ScryptoReceiver::Bucket(bucket_id) => RENodeId::Bucket(bucket_id),
        ScryptoReceiver::Proof(proof_id) => RENodeId::Proof(proof_id),
        ScryptoReceiver::Worktop => RENodeId::Worktop,
        ScryptoReceiver::Logger => RENodeId::Logger,
        ScryptoReceiver::TransactionRuntime => RENodeId::TransactionRuntime,
        ScryptoReceiver::AuthZoneStack => RENodeId::AuthZoneStack,
    }
}

/// The module of a node that a substate belongs to.
#[derive(Debug, Clone, Copy, PartialEq, Eq)]
pub enum NodeModuleId {
    SelfModule,
    ComponentTypeInfo,
}

/// Which substate of a module is meant.
#[derive(Debug, Clone, Copy, PartialEq, Eq)]
pub enum SubstateOffset {
    /// The type information of a component: its package and blueprint.
    ComponentTypeInfo,
}

/// A request to the kernel to lock a substate.
#[derive(Debug, Clone, Copy, PartialEq, Eq)]
pub struct SubstateLockRequest {
    pub node: RENodeId,
    pub module: NodeModuleId,
    pub offset: SubstateOffset,
    pub read_only: bool,
}

/// The lock that resolving a method call on `receiver` takes: a read-only lock on the type
/// information substate of the receiver's node.
pub fn type_info_lock(receiver: ScryptoReceiver) -> (r: SubstateLockRequest)
    ensures
        r == (SubstateLockRequest {
            node: receiver_node(receiver),
            module: NodeModuleId::ComponentTypeInfo,
            offset: SubstateOffset::ComponentTypeInfo,
            read_only: true,
        }),
{
    SubstateLockRequest {
        node: type_info_node(receiver),
        module: NodeModuleId::ComponentTypeInfo,
        offset: SubstateOffset::ComponentTypeInfo,
        read_only: true,
    }
}

fn copy_slice(a: &[u8]) -> (r: Vec<u8>)
    ensures
        r@ == a@,
{
    let mut r: Vec<u8> = Vec::new();
    let mut i: usize = 0;
    while i < a.len()
        invariant
            i <= a@.len(),
            r@ == a@.take(i as int),
        decreases a@.len() - i,
    {
        r.push(a[i]);
        i = i + 1;
        assert(r@ =~= a@.take(i as int));
    }
    assert(a@.take(a@.len() as int) =~= a@);
    r
}

/// The invocation of the method `method_name` on `receiver` with the encoded `args`, given
/// what reading the type information under the lock of `type_info_lock(receiver)` gave (the
/// lock is dropped after the read): the call goes to the blueprint of that node's package.
/// The kernel's error, where locking, reading or dropping the lock failed, is passed on as it
/// is.
pub fn resolve_method<E>(
    receiver: ScryptoReceiver,
    method_name: &str,
    args: &[u8],
    component_info: Result<ComponentInfo, E>,
) -> (r: Result<ScryptoInvocation, E>)
    ensures
        match component_info {
            Ok(info) => r matches Ok(inv) && {
                &&& inv.package_address == info.package_address
                &&& inv.blueprint_name@ == info.blueprint_name@
                &&& inv.receiver == Some(receiver)
                &&& inv.fn_name@ == method_name@
                &&& inv.args@ == args@
            },
            Err(e) => r == Err::<ScryptoInvocation, E>(e),
        },
{
    let component_info = match component_info {
        Ok(info) => info,
        Err(e) => {
            return Err(e);
        },
    };
    let fn_name = String::from_str(method_name);
    Ok(ScryptoInvocation {
        package_address: component_info.package_address,
        blueprint_name: component_info.blueprint_name,
        receiver: Some(receiver),
        fn_name,
        args: copy_slice(args),
    })
}

} // verus!
