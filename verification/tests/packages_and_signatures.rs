use radix_engine::cli_values::{
    parse_badge, parse_component_address, parse_decimal, parse_hex, parse_integer, parse_public_key,
    parse_resource_address,
};
use radix_engine::system::HardResourceOrNonFungible;
use radix_engine::custom_schema::{
    ChildNames, SchemaValidationError, ScryptoCustomSchema, ScryptoCustomTypeKind, TypeMetadata,
    validate_childless_metadata,
};
use radix_engine::epoch_manager::{EpochManagerBlueprint, EpochManagerSubstate};
use radix_engine::intent_signatures::{
    IntentSignatureV1, IntentSignaturesV2, PreparedIntentSignaturesV2, PreparedMultipleIntentSignaturesV2, Summary,
};
use radix_engine::new_package::{NewPackage, replace_str};
use radix_engine::non_fungible_resource_manager::build_non_fungible_resource_manager_substate;
use radix_engine::preparation::{PrepareError, ValueType};
use radix_engine::types::{
    ComponentAddress, Decimal, EcdsaSecp256k1PublicKey, NodeId, NonFungibleGlobalId, NonFungibleIdType,
    NonFungibleLocalId, ResourceAddress,
};

fn package(name: &str, path: Option<&str>, local: bool) -> NewPackage {
    NewPackage { package_name: name.to_string(), path: path.map(|p| p.to_string()), local }
}

#[test]
fn wasm_name_turns_dashes_into_underscores() {
    assert_eq!(package("my-cool-package", None, false).wasm_name(), "my_cool_package");
    assert_eq!(package("plain", None, false).wasm_name(), "plain");
}

#[test]
fn package_dir_defaults_to_the_package_name() {
    assert_eq!(package("hello", None, false).package_dir(), "hello");
    assert_eq!(package("hello", Some("/tmp/x"), false).package_dir(), "/tmp/x");
}

#[test]
fn replacing_finds_every_occurrence_from_the_left() {
    assert_eq!(replace_str("aaaa", "aa", "b"), "bb");
    assert_eq!(replace_str("abcabc", "bc", "X"), "aXaX");
    assert_eq!(replace_str("abc", "abcd", "X"), "abc");
    assert_eq!(replace_str("", "a", "X"), "");
}

#[test]
fn dependencies_point_to_the_local_checkout_or_the_release() {
    let (sbor, scrypto, scrypto_test) = package("p", None, true).dependencies("C:\\work\\radix", "1.2.0");
    assert_eq!(sbor, "{ path = \"C:/work/radix/sbor\" }");
    assert_eq!(scrypto, "{ path = \"C:/work/radix/scrypto\" }");
    assert_eq!(scrypto_test, "{ path = \"C:/work/radix/scrypto-test\" }");
    let (sbor, scrypto, scrypto_test) = package("p", None, false).dependencies("/ignored", "1.2.0");
    assert_eq!(sbor, "{ version = \"1.2.0\" }");
    assert_eq!(scrypto, sbor);
    assert_eq!(scrypto_test, sbor);
}

#[test]
fn cargo_toml_and_tests_are_filled_from_their_templates() {
    let p = package("my-pkg", None, false);
    let template = "name = \"${package_name}\"\nsbor = ${sbor}\nscrypto = ${scrypto}\ntest = ${scrypto-test}\n";
    assert_eq!(
        p.cargo_toml(template, "S", "C", "T"),
        "name = \"my-pkg\"\nsbor = S\nscrypto = C\ntest = T\n"
    );
    assert_eq!(p.tests_lib("compile(\"${wasm_name}\")"), "compile(\"my_pkg\")");
}

#[test]
fn custom_kinds_take_no_child_names() {
    let childless = TypeMetadata { name: Some("Decimal".to_string()), child_names: None };
    let named = TypeMetadata {
        name: Some("Decimal".to_string()),
        child_names: Some(ChildNames::NamedFields(vec!["a".to_string()])),
    };
    assert_eq!(validate_childless_metadata(&childless), Ok(()));
    assert_eq!(
        ScryptoCustomSchema::validate_type_metadata_with_custom_type_kind(&ScryptoCustomTypeKind::Decimal, &named),
        Err(SchemaValidationError::TypeMetadataContainedUnexpectedChildNames)
    );
    assert_eq!(
        ScryptoCustomSchema::validate_type_metadata_with_custom_type_kind(&ScryptoCustomTypeKind::Own, &childless),
        Ok(())
    );
}

fn summary(b: u8) -> Summary {
    Summary { effective_length: 10, total_bytes_hashed: 20, hash: [b; 32] }
}

fn prepared(n: usize) -> Vec<PreparedIntentSignaturesV2> {
    (0..n)
        .map(|i| PreparedIntentSignaturesV2 {
            inner: IntentSignaturesV2 { signatures: vec![IntentSignatureV1(vec![i as u8])] },
            summary: summary(i as u8),
        })
        .collect()
}

#[test]
fn too_many_subintent_signatures_are_refused() {
    let ok = PreparedMultipleIntentSignaturesV2::prepare_from_values(prepared(2), summary(9), 2).unwrap();
    assert_eq!(ok.by_subintent.len(), 2);
    assert_eq!(ok.summary, summary(9));
    assert_eq!(
        PreparedMultipleIntentSignaturesV2::prepare_from_values(prepared(3), summary(9), 2),
        Err(PrepareError::TooManyValues { value_type: ValueType::IntentSignatures, actual: 3, max: 2 })
    );
}

#[test]
fn a_new_validator_is_owned_by_the_minted_badge() {
    let substate = EpochManagerSubstate {
        address: ComponentAddress([1; 30]),
        validator_owner_resource: ResourceAddress([2; 30]),
        epoch: 5,
        round: 0,
        rounds_per_epoch: 10,
        num_unstake_epochs: 1,
    };
    let key = EcdsaSecp256k1PublicKey([3; 33]);
    let creation = EpochManagerBlueprint::create_validator(&substate, key, NonFungibleLocalId::UUID(77));
    assert_eq!(creation.manager, ComponentAddress([1; 30]));
    assert_eq!(creation.key, key);
    assert_eq!(creation.owner_badge.resource_address, ResourceAddress([2; 30]));
    assert_eq!(creation.owner_badge.local_id, NonFungibleLocalId::UUID(77));
    assert!(!creation.is_registered);
}

#[test]
fn a_new_manager_substate_counts_its_supply_in_units() {
    let substate = build_non_fungible_resource_manager_substate(
        NonFungibleIdType::Integer,
        3,
        vec!["name".to_string()],
        vec![],
        NodeId([4; 30]),
    );
    assert_eq!(substate.total_supply, Decimal::from_usize(3));
    assert_eq!(substate.total_supply.attos, 3_000_000_000_000_000_000);
    assert_eq!(substate.id_type, NonFungibleIdType::Integer);
    assert_eq!(substate.non_fungible_table, NodeId([4; 30]));
}

#[test]
fn decimals_are_read_in_units_and_attos() {
    assert_eq!(parse_decimal("12.5"), Some(Decimal { attos: 12_500_000_000_000_000_000 }));
    assert_eq!(parse_decimal("-1"), Some(Decimal { attos: -1_000_000_000_000_000_000 }));
    assert_eq!(parse_decimal("0.000000000000000001"), Some(Decimal { attos: 1 }));
    assert_eq!(parse_decimal("007"), Some(Decimal::from_usize(7)));
    assert_eq!(parse_decimal("170141183460469231731.687303715884105727"), Some(Decimal { attos: i128::MAX }));
    assert_eq!(parse_decimal("-170141183460469231731.687303715884105728"), Some(Decimal { attos: i128::MIN }));
    assert_eq!(parse_decimal("170141183460469231731.687303715884105728"), None);
    assert_eq!(parse_decimal("99999999999999999999999999999999999999999"), None);
    assert_eq!(parse_decimal("1."), None);
    assert_eq!(parse_decimal(".5"), None);
    assert_eq!(parse_decimal("1.0000000000000000001"), None);
    assert_eq!(parse_decimal("1e5"), None);
    assert_eq!(parse_decimal(""), None);
    assert_eq!(parse_decimal("-"), None);
}

#[test]
fn hex_text_is_read_two_digits_per_byte() {
    assert_eq!(parse_hex("0aFF10"), Some(vec![0x0a, 0xff, 0x10]));
    assert_eq!(parse_hex(""), Some(vec![]));
    assert_eq!(parse_hex("abc"), None);
    assert_eq!(parse_hex("zz"), None);
}

#[test]
fn addresses_keys_and_badges_are_read_from_hexadecimal() {
    let hex30 = "0a".repeat(30);
    assert_eq!(parse_resource_address(&hex30), Some(ResourceAddress([0x0a; 30])));
    assert_eq!(parse_component_address(&hex30), Some(ComponentAddress([0x0a; 30])));
    assert_eq!(parse_resource_address("0a0a"), None);
    assert_eq!(parse_public_key(&"ff".repeat(33)), Some(EcdsaSecp256k1PublicKey([0xff; 33])));
    assert_eq!(parse_public_key(&hex30), None);
    assert_eq!(parse_badge(&hex30), Some(HardResourceOrNonFungible::Resource(ResourceAddress([0x0a; 30]))));
    assert_eq!(
        parse_badge(&format!("{hex30}:42")),
        Some(HardResourceOrNonFungible::NonFungible(NonFungibleGlobalId::new(
            ResourceAddress([0x0a; 30]),
            NonFungibleLocalId::Integer(42)
        )))
    );
    assert_eq!(parse_badge(&format!("{hex30}:x")), None);
    assert_eq!(parse_badge(&format!("{hex30}:")), None);
    assert_eq!(parse_integer("18446744073709551615"), Some(u64::MAX));
    assert_eq!(parse_integer("18446744073709551616"), None);
}
