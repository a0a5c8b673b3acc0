use radix_engine::assoc_map::AssocMap;
use radix_engine::non_fungible_resource_manager::{
    NonFungibleData, NonFungibleIdSet, NonFungibleResourceManager, NonFungibleResourceManagerBlueprint,
    NonFungibleResourceManagerError, ResourceType, create_non_fungibles,
};
use radix_engine::types::{
    Decimal, NodeId, NonFungibleGlobalId, NonFungibleIdType, NonFungibleLocalId, ResourceAddress, ATTOS_PER_UNIT,
};

fn resource() -> ResourceAddress {
    ResourceAddress([4; 30])
}

fn data(a: u8, b: u8) -> NonFungibleData {
    NonFungibleData { fields: vec![vec![a], vec![b]] }
}

fn fields() -> Vec<String> {
    vec!["name".to_string(), "level".to_string()]
}

fn integer_manager() -> NonFungibleResourceManager {
    NonFungibleResourceManagerBlueprint::create_with_address(
        NonFungibleIdType::Integer,
        fields(),
        vec!["level".to_string()],
        NodeId([8; 30]),
        resource(),
    )
}

fn entries(ids: &[u64]) -> AssocMap<NonFungibleLocalId, NonFungibleData> {
    let mut m = AssocMap::new();
    for id in ids {
        m.insert(NonFungibleLocalId::Integer(*id), data(*id as u8, 0));
    }
    m
}

fn id_set(ids: &[u64]) -> NonFungibleIdSet {
    let mut s = AssocMap::new();
    for id in ids {
        s.insert(NonFungibleLocalId::Integer(*id), ());
    }
    s
}

fn units(n: i128) -> Decimal {
    Decimal { attos: n * ATTOS_PER_UNIT }
}

#[test]
fn a_new_manager_has_no_supply() {
    let m = integer_manager();
    assert_eq!(NonFungibleResourceManagerBlueprint::get_total_supply(&m), Decimal { attos: 0 });
    assert_eq!(NonFungibleResourceManagerBlueprint::get_resource_type(&m), ResourceType::NonFungible { id_type: NonFungibleIdType::Integer });
    assert!(!NonFungibleResourceManagerBlueprint::non_fungible_exists(&m, &NonFungibleLocalId::Integer(1)));
}

#[test]
fn mint_adds_supply_and_data() {
    let mut m = integer_manager();
    let ids = NonFungibleResourceManagerBlueprint::mint_non_fungible(&mut m, entries(&[1, 2, 3])).unwrap();
    assert_eq!(ids.len(), 3);
    assert!(ids.contains_key(&NonFungibleLocalId::Integer(2)));
    assert_eq!(NonFungibleResourceManagerBlueprint::get_total_supply(&m), units(3));
    assert!(NonFungibleResourceManagerBlueprint::non_fungible_exists(&m, &NonFungibleLocalId::Integer(3)));
    assert_eq!(NonFungibleResourceManagerBlueprint::get_non_fungible(&m, &NonFungibleLocalId::Integer(2)), Ok(&data(2, 0)));
}

#[test]
fn mint_stops_at_the_first_existing_id_in_key_order() {
    let mut m = integer_manager();
    NonFungibleResourceManagerBlueprint::mint_non_fungible(&mut m, entries(&[2])).unwrap();
    let r = NonFungibleResourceManagerBlueprint::mint_non_fungible(&mut m, entries(&[1, 2, 3]));
    match r {
        Err(e) => assert_eq!(
            e,
            NonFungibleResourceManagerError::NonFungibleAlreadyExists(Box::new(NonFungibleGlobalId {
                resource_address: resource(),
                local_id: NonFungibleLocalId::Integer(2),
            }))
        ),
        Ok(_) => panic!("expected a refusal"),
    }
    // The supply was raised before writing; the entry before the refused one was written.
    assert_eq!(NonFungibleResourceManagerBlueprint::get_total_supply(&m), units(4));
    assert!(NonFungibleResourceManagerBlueprint::non_fungible_exists(&m, &NonFungibleLocalId::Integer(1)));
    assert_eq!(NonFungibleResourceManagerBlueprint::get_non_fungible(&m, &NonFungibleLocalId::Integer(2)), Ok(&data(2, 0)));
    assert!(!NonFungibleResourceManagerBlueprint::non_fungible_exists(&m, &NonFungibleLocalId::Integer(3)));
    assert_eq!(m.substate.mutable_fields, vec!["level".to_string()]);
    assert_eq!(m.substate.data_fields, fields());
}

#[test]
fn mint_with_an_id_of_another_kind_is_refused() {
    let mut m = integer_manager();
    let mut e = AssocMap::new();
    e.insert(NonFungibleLocalId::String("a".to_string()), data(0, 0));
    match NonFungibleResourceManagerBlueprint::mint_non_fungible(&mut m, e) {
        Err(err) => assert_eq!(
            err,
            NonFungibleResourceManagerError::NonFungibleIdTypeDoesNotMatch(NonFungibleIdType::String, NonFungibleIdType::Integer)
        ),
        Ok(_) => panic!("expected a refusal"),
    }
    assert_eq!(NonFungibleResourceManagerBlueprint::get_total_supply(&m), units(1));
    assert!(!NonFungibleResourceManagerBlueprint::non_fungible_exists(&m, &NonFungibleLocalId::String("a".to_string())));
}

#[test]
fn mint_on_a_uuid_resource_is_refused() {
    let (mut m, ids) = NonFungibleResourceManagerBlueprint::create_uuid_with_initial_supply(
        fields(), vec![], NodeId([8; 30]), resource(), vec![data(1, 1)], vec![77]);
    assert_eq!(ids.len(), 1);
    assert!(ids.contains_key(&NonFungibleLocalId::UUID(77)));
    match NonFungibleResourceManagerBlueprint::mint_non_fungible(&mut m, entries(&[1])) {
        Err(e) => assert_eq!(e, NonFungibleResourceManagerError::NonFungibleLocalIdProvidedForUUIDType),
        Ok(_) => panic!("expected a refusal"),
    }
    assert_eq!(NonFungibleResourceManagerBlueprint::get_total_supply(&m), units(1));
}

#[test]
fn uuid_mints_need_a_uuid_resource() {
    let mut m = integer_manager();
    assert_eq!(
        NonFungibleResourceManagerBlueprint::mint_single_uuid_non_fungible(&mut m, data(0, 0), 5).err(),
        Some(NonFungibleResourceManagerError::InvalidNonFungibleIdType)
    );
    assert_eq!(
        NonFungibleResourceManagerBlueprint::mint_uuid_non_fungible(&mut m, vec![data(0, 0)], vec![5]).err(),
        Some(NonFungibleResourceManagerError::InvalidNonFungibleIdType)
    );
}

#[test]
fn uuid_mints_store_under_the_uuid() {
    let (mut m, _) = NonFungibleResourceManagerBlueprint::create_uuid_with_initial_supply(
        fields(), vec![], NodeId([8; 30]), resource(), vec![], vec![]);
    assert_eq!(NonFungibleResourceManagerBlueprint::get_total_supply(&m), Decimal { attos: 0 });
    let id = NonFungibleResourceManagerBlueprint::mint_single_uuid_non_fungible(&mut m, data(9, 9), 1234).unwrap();
    assert_eq!(id, NonFungibleLocalId::UUID(1234));
    let ids = NonFungibleResourceManagerBlueprint::mint_uuid_non_fungible(&mut m, vec![data(1, 0), data(2, 0)], vec![10, 11]).unwrap();
    assert_eq!(ids.len(), 2);
    assert_eq!(NonFungibleResourceManagerBlueprint::get_total_supply(&m), units(3));
    assert_eq!(NonFungibleResourceManagerBlueprint::get_non_fungible(&m, &NonFungibleLocalId::UUID(11)), Ok(&data(2, 0)));
    assert_eq!(NonFungibleResourceManagerBlueprint::get_non_fungible(&m, &NonFungibleLocalId::UUID(1234)), Ok(&data(9, 9)));
}

#[test]
fn create_uuid_with_initial_supply_counts_distinct_ids() {
    let (m, ids) = NonFungibleResourceManagerBlueprint::create_uuid_with_initial_supply(
        fields(), vec![], NodeId([8; 30]), resource(), vec![data(1, 0), data(2, 0)], vec![3, 3]);
    assert_eq!(ids.len(), 1);
    assert_eq!(NonFungibleResourceManagerBlueprint::get_total_supply(&m), units(1));
    // The later entry under the same id wins.
    assert_eq!(NonFungibleResourceManagerBlueprint::get_non_fungible(&m, &NonFungibleLocalId::UUID(3)), Ok(&data(2, 0)));
}

#[test]
fn create_with_initial_supply() {
    let (m, ids) = NonFungibleResourceManagerBlueprint::create_with_initial_supply(
        NonFungibleIdType::Integer, fields(), vec![], NodeId([8; 30]), resource(), entries(&[4, 5])).unwrap();
    assert_eq!(ids.len(), 2);
    assert_eq!(NonFungibleResourceManagerBlueprint::get_total_supply(&m), units(2));
    assert!(NonFungibleResourceManagerBlueprint::non_fungible_exists(&m, &NonFungibleLocalId::Integer(4)));
    let refused = NonFungibleResourceManagerBlueprint::create_with_initial_supply(
        NonFungibleIdType::UUID, fields(), vec![], NodeId([8; 30]), resource(), entries(&[4]));
    assert_eq!(refused.err(), Some(NonFungibleResourceManagerError::NonFungibleLocalIdProvidedForUUIDType));
    let mismatched = NonFungibleResourceManagerBlueprint::create_with_initial_supply(
        NonFungibleIdType::Bytes, fields(), vec![], NodeId([8; 30]), resource(), entries(&[4]));
    assert_eq!(
        mismatched.err(),
        Some(NonFungibleResourceManagerError::NonFungibleIdTypeDoesNotMatch(NonFungibleIdType::Integer, NonFungibleIdType::Bytes))
    );
}

#[test]
fn update_non_fungible_data_sets_a_mutable_field() {
    let mut m = integer_manager();
    NonFungibleResourceManagerBlueprint::mint_non_fungible(&mut m, entries(&[1])).unwrap();
    let r = NonFungibleResourceManagerBlueprint::update_non_fungible_data(&mut m, NonFungibleLocalId::Integer(1), "level".to_string(), vec![42]);
    assert_eq!(r, Ok(()));
    assert_eq!(
        NonFungibleResourceManagerBlueprint::get_non_fungible(&m, &NonFungibleLocalId::Integer(1)),
        Ok(&NonFungibleData { fields: vec![vec![1], vec![42]] })
    );
}

#[test]
fn update_non_fungible_data_refusals() {
    let mut m = integer_manager();
    NonFungibleResourceManagerBlueprint::mint_non_fungible(&mut m, entries(&[1])).unwrap();
    assert_eq!(
        NonFungibleResourceManagerBlueprint::update_non_fungible_data(&mut m, NonFungibleLocalId::Integer(1), "color".to_string(), vec![1]),
        Err(NonFungibleResourceManagerError::InvalidField("color".to_string()))
    );
    assert_eq!(
        NonFungibleResourceManagerBlueprint::update_non_fungible_data(&mut m, NonFungibleLocalId::Integer(1), "name".to_string(), vec![1]),
        Err(NonFungibleResourceManagerError::FieldNotMutable("name".to_string()))
    );
    assert_eq!(
        NonFungibleResourceManagerBlueprint::update_non_fungible_data(&mut m, NonFungibleLocalId::Integer(2), "level".to_string(), vec![1]),
        Err(NonFungibleResourceManagerError::NonFungibleNotFound(Box::new(NonFungibleGlobalId {
            resource_address: resource(),
            local_id: NonFungibleLocalId::Integer(2),
        })))
    );
    assert_eq!(NonFungibleResourceManagerBlueprint::get_non_fungible(&m, &NonFungibleLocalId::Integer(1)), Ok(&data(1, 0)));
}

#[test]
fn get_non_fungible_of_a_missing_id() {
    let m = integer_manager();
    assert_eq!(
        NonFungibleResourceManagerBlueprint::get_non_fungible(&m, &NonFungibleLocalId::Integer(9)),
        Err(NonFungibleResourceManagerError::NonFungibleNotFound(Box::new(NonFungibleGlobalId {
            resource_address: resource(),
            local_id: NonFungibleLocalId::Integer(9),
        })))
    );
}

#[test]
fn burn_removes_data_and_supply() {
    let mut m = integer_manager();
    NonFungibleResourceManagerBlueprint::mint_non_fungible(&mut m, entries(&[1, 2, 3])).unwrap();
    let burned = NonFungibleResourceManagerBlueprint::burn(&mut m, id_set(&[1, 3]));
    assert_eq!(burned.len(), 2);
    assert_eq!(NonFungibleResourceManagerBlueprint::get_total_supply(&m), units(1));
    assert!(!NonFungibleResourceManagerBlueprint::non_fungible_exists(&m, &NonFungibleLocalId::Integer(1)));
    assert!(NonFungibleResourceManagerBlueprint::non_fungible_exists(&m, &NonFungibleLocalId::Integer(2)));
    assert!(!NonFungibleResourceManagerBlueprint::non_fungible_exists(&m, &NonFungibleLocalId::Integer(3)));
}

#[test]
fn only_an_empty_bucket_may_be_dropped() {
    assert_eq!(NonFungibleResourceManagerBlueprint::drop_empty_bucket(&id_set(&[])), Ok(()));
    assert_eq!(
        NonFungibleResourceManagerBlueprint::drop_empty_bucket(&id_set(&[1])),
        Err(NonFungibleResourceManagerError::DropNonEmptyBucket)
    );
}

#[test]
fn buckets_and_vaults_carry_the_id_type() {
    let m = integer_manager();
    let empty = NonFungibleResourceManagerBlueprint::create_empty_bucket(&m);
    assert_eq!(empty.resource_type, ResourceType::NonFungible { id_type: NonFungibleIdType::Integer });
    assert_eq!(empty.liquid.len(), 0);
    let bucket = NonFungibleResourceManagerBlueprint::create_bucket(&m, id_set(&[1, 2]));
    assert_eq!(bucket.liquid.len(), 2);
    assert_eq!(bucket.locked.len(), 0);
    let vault = NonFungibleResourceManagerBlueprint::create_vault(&m, NodeId([3; 30]));
    assert_eq!(vault.id_type, NonFungibleIdType::Integer);
    assert_eq!(vault.amount, Decimal { attos: 0 });
    assert_eq!(vault.ids, NodeId([3; 30]));
}

#[test]
fn create_non_fungibles_without_existence_check_overwrites() {
    let mut table = AssocMap::new();
    table.insert(NonFungibleLocalId::Integer(1), data(1, 1));
    let r = create_non_fungibles(resource(), NonFungibleIdType::Integer, &mut table, entries(&[1, 2]), false);
    assert_eq!(r, Ok(()));
    assert_eq!(table.get(&NonFungibleLocalId::Integer(1)), Some(&data(1, 0)));
    assert_eq!(table.len(), 2);
    let r = create_non_fungibles(resource(), NonFungibleIdType::Integer, &mut table, entries(&[2]), true);
    assert!(matches!(r, Err(NonFungibleResourceManagerError::NonFungibleAlreadyExists(_))));
}

#[test]
fn create_non_fungibles_keeps_what_it_wrote_before_a_refusal() {
    let mut table = AssocMap::new();
    table.insert(NonFungibleLocalId::Integer(2), data(2, 9));
    let r = create_non_fungibles(resource(), NonFungibleIdType::Integer, &mut table, entries(&[1, 2]), true);
    assert!(matches!(r, Err(NonFungibleResourceManagerError::NonFungibleAlreadyExists(_))));
    assert_eq!(table.get(&NonFungibleLocalId::Integer(1)), Some(&data(1, 0)));
    assert_eq!(table.get(&NonFungibleLocalId::Integer(2)), Some(&data(2, 9)));
    assert_eq!(table.len(), 2);
}

#[test]
fn create_is_create_with_address() {
    let m = NonFungibleResourceManagerBlueprint::create(
        NonFungibleIdType::Bytes, fields(), vec![], NodeId([8; 30]), resource());
    assert_eq!(m.resource_address, resource());
    assert_eq!(m.substate.id_type, NonFungibleIdType::Bytes);
    assert_eq!(m.substate.total_supply, Decimal { attos: 0 });
}
