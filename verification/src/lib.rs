use vstd::prelude::*;

pub mod assoc_map;
pub mod cli_values;
pub mod custom_schema;
pub mod cuttlefish;
pub mod epoch_manager;
pub mod flash_state;
pub mod intent_signatures;
pub mod manifest;
pub mod memory;
pub mod new_package;
pub mod non_fungible_resource_manager;
pub mod preparation;
pub mod resim;
pub mod resolve_method;
pub mod resource_manager;
pub mod royalty;
pub mod static_resource_movements;
pub mod system;
pub mod types;
pub mod validated_transaction;

verus! {
} // verus!
