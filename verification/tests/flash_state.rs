use radix_engine::assoc_map::AssocMap;
use radix_engine::custom_schema::{ChildNames, ScryptoCustomTypeKind, TypeMetadata, TypeValidation};
use radix_engine::flash_state::{
    point_time_functions, pool_package_update, pool_role_updates, seconds_precision_updates, BlueprintFunctions,
    DatabaseUpdate, EntityType, PackageExport, PartitionUpdates, PoolPackageReads, ScopedTypeId, SecondsPrecisionReads,
    SubstateKey,
};
use radix_engine::non_fungible_resource_manager::{
    non_fungible_table_schema, LocalTypeIndex, NonFungibleDataSchema, ScryptoSchema, TypeKind,
};
use radix_engine::types::NodeId;

fn set(key: Vec<u8>, value: Vec<u8>) -> PartitionUpdates {
    PartitionUpdates::Delta { by_substate: vec![(SubstateKey::MapKey(key), DatabaseUpdate::SetValue(value))] }
}

#[test]
fn seconds_precision_sets_four_partitions_of_the_consensus_manager_package() {
    let reads = SecondsPrecisionReads {
        consensus_manager_package: NodeId([7; 30]),
        blueprint_definition_partition: 65,
        code_vm_type_partition: 66,
        code_partition: 67,
        schema_partition: 68,
        blueprint_version_key: vec![1],
        code_hash_key: vec![2],
        schema_hash_key: vec![3],
        blueprint_definition: vec![10],
        vm_type: vec![11],
        code: vec![12],
        schema: vec![13],
    };
    let u = seconds_precision_updates(&reads);
    assert_eq!(u.node, NodeId([7; 30]));
    assert_eq!(
        u.by_partition,
        vec![
            (65, set(vec![1], vec![10])),
            (66, set(vec![2], vec![11])),
            (67, set(vec![2], vec![12])),
            (68, set(vec![3], vec![13])),
        ]
    );
}

#[test]
fn the_time_functions_point_at_the_new_code() {
    let mut exports = AssocMap::new();
    exports.insert(String::from("get_current_time"), PackageExport { code_hash: [1; 32], export_name: String::from("get_t") });
    exports.insert(String::from("compare_current_time"), PackageExport { code_hash: [1; 32], export_name: String::from("cmp_t") });
    exports.insert(String::from("next_round"), PackageExport { code_hash: [1; 32], export_name: String::from("next") });
    let mut inputs = AssocMap::new();
    inputs.insert(String::from("get_current_time"), ScopedTypeId([1; 32], 0));
    let mut definition = BlueprintFunctions { function_exports: exports, function_inputs: inputs };
    point_time_functions(&mut definition, [9; 32], [8; 32], 4, 5);
    let get = definition.function_exports.get(&String::from("get_current_time")).unwrap();
    assert_eq!(get.code_hash, [9; 32]);
    assert_eq!(get.export_name, "get_t");
    let cmp = definition.function_exports.get(&String::from("compare_current_time")).unwrap();
    assert_eq!(cmp.code_hash, [9; 32]);
    assert_eq!(cmp.export_name, "cmp_t");
    let next = definition.function_exports.get(&String::from("next_round")).unwrap();
    assert_eq!(next.code_hash, [1; 32]);
    assert_eq!(definition.function_inputs.get(&String::from("get_current_time")), Some(&ScopedTypeId([8; 32], 4)));
    assert_eq!(definition.function_inputs.get(&String::from("compare_current_time")), Some(&ScopedTypeId([8; 32], 5)));
}

#[test]
fn each_pool_gets_the_contributor_role_once() {
    let pool = NodeId([1; 30]);
    let account = NodeId([2; 30]);
    let other_pool = NodeId([3; 30]);
    let nodes = vec![
        (pool, Some(EntityType::GlobalOneResourcePool), 6, vec![40]),
        (account, Some(EntityType::Other), 6, vec![41]),
        (pool, Some(EntityType::GlobalOneResourcePool), 6, vec![42]),
        (other_pool, Some(EntityType::GlobalMultiResourcePool), 7, vec![43]),
        (NodeId([4; 30]), None, 6, vec![44]),
    ];
    let r = pool_role_updates(&nodes, &vec![99]);
    assert_eq!(r.len(), 2);
    assert_eq!(r[0].node, pool);
    assert_eq!(r[0].by_partition, vec![(6, set(vec![99], vec![40]))]);
    assert_eq!(r[1].node, other_pool);
    assert_eq!(r[1].by_partition, vec![(7, set(vec![99], vec![43]))]);
}

#[test]
fn no_pools_no_role_updates() {
    let nodes = vec![(NodeId([2; 30]), Some(EntityType::Other), 6, vec![41])];
    assert!(pool_role_updates(&nodes, &vec![99]).is_empty());
}

#[test]
fn the_pool_package_collections_are_emptied_then_the_new_substates_set() {
    let reads = PoolPackageReads {
        pool_package: NodeId([5; 30]),
        collection_partitions: vec![70, 71],
        new_substates: vec![
            (71, vec![(SubstateKey::MapKey(vec![1]), vec![10])]),
            (0, vec![(SubstateKey::Field(0), vec![11]), (SubstateKey::Field(1), vec![12])]),
            (71, vec![(SubstateKey::MapKey(vec![2]), vec![13])]),
        ],
    };
    let u = pool_package_update(&reads);
    assert_eq!(u.node, NodeId([5; 30]));
    assert_eq!(
        u.by_partition,
        vec![
            (70, PartitionUpdates::Reset { new_substates: vec![] }),
            (
                71,
                PartitionUpdates::Reset {
                    new_substates: vec![(SubstateKey::MapKey(vec![1]), vec![10]), (SubstateKey::MapKey(vec![2]), vec![13])],
                }
            ),
            (
                0,
                PartitionUpdates::Delta {
                    by_substate: vec![
                        (SubstateKey::Field(0), DatabaseUpdate::SetValue(vec![11])),
                        (SubstateKey::Field(1), DatabaseUpdate::SetValue(vec![12])),
                    ],
                }
            ),
        ]
    );
}

#[test]
fn the_non_fungible_table_holds_an_option_of_the_data_at_the_last_index() {
    let data_schema = NonFungibleDataSchema {
        schema: ScryptoSchema {
            type_kinds: vec![TypeKind::Custom(ScryptoCustomTypeKind::Decimal)],
            type_metadata: vec![TypeMetadata { name: Some(String::from("Data")), child_names: None }],
            type_validations: vec![TypeValidation::NoValidation],
        },
        non_fungible: LocalTypeIndex::SchemaLocalIndex(0),
        mutable_fields: vec![],
    };
    let key_schema = ScryptoSchema {
        type_kinds: vec![TypeKind::Encoded(vec![1, 2])],
        type_metadata: vec![TypeMetadata { name: Some(String::from("NonFungibleLocalId")), child_names: None }],
        type_validations: vec![TypeValidation::NoValidation],
    };
    let kv = non_fungible_table_schema(data_schema, LocalTypeIndex::SchemaLocalIndex(1), key_schema);
    assert_eq!(kv.key, LocalTypeIndex::SchemaLocalIndex(1));
    assert_eq!(kv.value, LocalTypeIndex::SchemaLocalIndex(2));
    assert!(!kv.can_own);
    assert_eq!(kv.schema.type_kinds.len(), 3);
    assert_eq!(kv.schema.type_kinds[0], TypeKind::Custom(ScryptoCustomTypeKind::Decimal));
    assert_eq!(kv.schema.type_kinds[1], TypeKind::Encoded(vec![1, 2]));
    assert_eq!(
        kv.schema.type_kinds[2],
        TypeKind::Enum { variants: vec![(0, vec![]), (1, vec![LocalTypeIndex::SchemaLocalIndex(0)])] }
    );
    assert_eq!(
        kv.schema.type_metadata[2],
        TypeMetadata {
            name: Some(String::from("Option")),
            child_names: Some(ChildNames::EnumVariants(vec![(0, String::from("None")), (1, String::from("Some"))])),
        }
    );
    assert_eq!(kv.schema.type_validations.len(), 3);
    assert_eq!(kv.schema.type_validations[2], TypeValidation::NoValidation);
}
