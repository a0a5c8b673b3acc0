use vstd::prelude::*;

use crate::custom_schema::PackageAddress;
use crate::resolve_method::{ComponentId, GlobalAddress, ScryptoReceiver};
use crate::types::ComponentAddress;

verus! {

/// The royalty charged for calling each method, and for every other method.
#[derive(Debug, Clone, PartialEq, Eq)]
pub struct RoyaltyConfig {
    pub rules: Vec<(String, u32)>,
    pub default_rule: u32,
}

/// An owned node.
#[derive(Debug, Clone, Copy, PartialEq, Eq)]
pub struct Own(pub [u8; 30]);

/// The modules of an object.
#[derive(Debug, Clone, Copy, PartialEq, Eq)]
pub enum ObjectModuleId {
    SelfModule,
    Metadata,
    Royalty,
    AccessRules,
}

/// How a module is reached: owned before it is attached, or attached to a global object.
#[derive(Debug, Clone, Copy, PartialEq, Eq)]
pub enum ModuleHandle {
    Own(Own),
    Attached(GlobalAddress, ObjectModuleId),
}

/// The royalty module of a component.
#[derive(Debug, Clone, Copy, PartialEq, Eq)]
pub struct Royalty(pub ModuleHandle);

/// A call of the royalty blueprint, as the environment is asked to perform it.
#[derive(Debug, Clone, PartialEq, Eq)]
pub enum RoyaltyCall {
    /// Create a royalty module with this configuration; the call returns the owned module.
    Create { royalty_config: RoyaltyConfig },
    /// Set the configuration of the module reached through the handle.
    SetRoyaltyConfig { handle: ModuleHandle, royalty_config: RoyaltyConfig },
    /// Claim the royalty collected by the module reached through the handle; the call returns
    /// a bucket.
    ClaimRoyalty { handle: ModuleHandle },
}

impl RoyaltyConfig {
    /// No royalty for any method.
    pub fn default_config() -> (r: Self)
        ensures
            r.rules@.len() == 0,
            r.default_rule == 0,
    {
        RoyaltyConfig { rules: Vec::new(), default_rule: 0 }
    }
}

impl Royalty {
    /// The module that a royalty module handle reaches.
    pub fn handle(&self) -> (r: &ModuleHandle)
        ensures
            *r == self.0,
    {
        &self.0
    }

    /// The call that creates a royalty module with the given configuration.
    pub fn new(royalty_config: RoyaltyConfig) -> (r: RoyaltyCall)
        ensures
            r == (RoyaltyCall::Create { royalty_config }),
    {
        RoyaltyCall::Create { royalty_config }
    }

    /// The royalty module that a creation call gave back.
    pub fn from_created(royalty: Own) -> (r: Royalty)
        ensures
            r == Royalty(ModuleHandle::Own(royalty)),
    {
        Royalty(ModuleHandle::Own(royalty))
    }

    /// The call that creates a royalty module that charges nothing.
    pub fn default_call() -> (r: RoyaltyCall)
        ensures
            r matches RoyaltyCall::Create { royalty_config } && royalty_config.rules@.len() == 0
                && royalty_config.default_rule == 0,
    {
        Royalty::new(RoyaltyConfig::default_config())
    }

    /// The call that sets the configuration of this module.
    pub fn set_config(&self, royalty_config: RoyaltyConfig) -> (r: RoyaltyCall)
        ensures
            r == (RoyaltyCall::SetRoyaltyConfig { handle: self.0, royalty_config }),
    {
        RoyaltyCall::SetRoyaltyConfig { handle: self.0, royalty_config }
    }

    /// The call that claims the royalty collected by this module.
    pub fn claim_royalty(&self) -> (r: RoyaltyCall)
        ensures
            r == (RoyaltyCall::ClaimRoyalty { handle: self.0 }),
    {
        RoyaltyCall::ClaimRoyalty { handle: self.0 }
    }
}

/// The running entity: a blueprint, within a function call, or a component, within a
/// method call.
#[derive(Debug, Clone, PartialEq, Eq)]
pub enum ScryptoActor {
    Blueprint(PackageAddress, String),
    Component(ComponentId, PackageAddress, String),
}

/// The transaction runtime, as far as it is computed from what the environment reports.
pub struct Runtime {}

/// Where a function to call lives.
#[derive(Debug, Clone, Copy, PartialEq, Eq)]
pub enum ScryptoPackage {
    Global(PackageAddress),
}

/// A function of a blueprint.
#[derive(Debug, Clone, PartialEq, Eq)]
pub struct ScryptoFunctionIdent {
    pub package: ScryptoPackage,
    pub blueprint_name: String,
    pub function_name: String,
}

/// A method of a component.
#[derive(Debug, Clone, PartialEq, Eq)]
pub struct ScryptoMethodIdent {
    pub receiver: ScryptoReceiver,
    pub method_name: String,
}

/// A call that the environment is asked to make, with its encoded arguments; it answers
/// with the encoded result.
#[derive(Debug, Clone, PartialEq, Eq)]
pub enum ScryptoCall {
    Function { ident: ScryptoFunctionIdent, args: Vec<u8> },
    Method { ident: ScryptoMethodIdent, args: Vec<u8> },
}

impl Runtime {
    /// The call of the function `function_name` of the blueprint `blueprint_name` in the
    /// package at `package_address`, with the encoded `args`.
    pub fn call_function(package_address: PackageAddress, blueprint_name: &str, function_name: &str, args: Vec<u8>) -> (r: ScryptoCall)
        ensures
            r matches ScryptoCall::Function { ident, args: a } && ident.package == ScryptoPackage::Global(package_address)
                && ident.blueprint_name@ == blueprint_name@ && ident.function_name@ == function_name@ && a == args,
    {
        ScryptoCall::Function {
            ident: ScryptoFunctionIdent {
                package: ScryptoPackage::Global(package_address),
                blueprint_name: blueprint_name.to_owned(),
                function_name: function_name.to_owned(),
            },
            args,
        }
    }

    /// The call of the method `method` of the global component at `component_address`, with
    /// the encoded `args`.
    pub fn call_method(component_address: ComponentAddress, method: &str, args: Vec<u8>) -> (r: ScryptoCall)
        ensures
            r matches ScryptoCall::Method { ident, args: a } && ident.receiver == ScryptoReceiver::Global(component_address)
                && ident.method_name@ == method@ && a == args,
    {
        ScryptoCall::Method {
            ident: ScryptoMethodIdent { receiver: ScryptoReceiver::Global(component_address), method_name: method.to_owned() },
            args,
        }
    }

    /// The package of the running entity.
    pub fn package_address(actor: &ScryptoActor) -> (r: PackageAddress)
        ensures
            r == match *actor {
                ScryptoActor::Blueprint(p, _) => p,
                ScryptoActor::Component(_, p, _) => p,
            },
    {
        match actor {
            ScryptoActor::Blueprint(package_address, _) | ScryptoActor::Component(_, package_address, _) => *package_address,
        }
    }
}

} // verus!
