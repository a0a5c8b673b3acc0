use radix_engine::assoc_map::AssocMap;
use radix_engine::manifest::{Manifest, ManifestBuilder, ManifestExpression};
use radix_engine::static_resource_movements::{
    AccountDeposit, AccountWithdraw, ChangeSource, ResourceAddAmount, ResourceAssertion, ResourceBound,
    ResourceBounds, ResourceChangeHistory, ResourceTakeAmount, StaticResourceMovementsError,
    StaticResourceMovementsVisitor,
};
use radix_engine::types::{ComponentAddress, Decimal, NonFungibleLocalId, ResourceAddress};

const XRD: ResourceAddress = ResourceAddress([
    93, 166, 99, 24, 198, 49, 140, 97, 245, 166, 27, 76, 99, 24, 198, 49, 140, 247, 148, 170, 141, 41, 95, 20,
    230, 49, 140, 99, 24, 198,
]);

fn dec(n: usize) -> Decimal {
    Decimal::from_usize(n)
}

#[test]
fn simple_account_transfer_with_an_explicit_take_all_is_correctly_classified() {
    // Arrange
    let account1 = account_address(1);
    let account2 = account_address(2);
    let manifest = ManifestBuilder::new_v2()
        .lock_fee_and_withdraw(account1, dec(100), XRD, dec(10))
        .take_all_from_worktop(XRD, "bucket")
        .deposit(account2, "bucket")
        .build();

    // Act
    let (deposits, withdraws) = statically_analyze(&manifest).unwrap();

    // Assert
    assert_eq!(withdraws.len(), 1);
    assert_eq!(deposits.len(), 1);
    assert_eq!(withdraws.get(&account1), Some(&vec![AccountWithdraw::Amount(XRD, dec(10))]));
    assert_eq!(
        deposits.get(&account2),
        Some(&vec![AccountDeposit(
            ResourceBounds::new_empty()
                // A take all will inherit the change source from the worktop
                .add_resource(
                    XRD,
                    ResourceBound::exact_amount(dec(10), vec![ChangeSource::invocation_at(0)]).unwrap()
                )
                .unwrap()
        )])
    );
}

#[test]
fn simple_account_transfer_with_an_explicit_take_exact_is_correctly_classified() {
    // Arrange
    let account1 = account_address(1);
    let account2 = account_address(2);
    let manifest = ManifestBuilder::new_v2()
        .lock_fee_and_withdraw(account1, dec(100), XRD, dec(10))
        .take_from_worktop(XRD, dec(10), "bucket")
        .deposit(account2, "bucket")
        .build();

    // Act
    let (deposits, withdraws) = statically_analyze(&manifest).unwrap();

    // Assert
    assert_eq!(withdraws.len(), 1);
    assert_eq!(deposits.len(), 1);
    assert_eq!(withdraws.get(&account1), Some(&vec![AccountWithdraw::Amount(XRD, dec(10))]));
    assert_eq!(
        deposits.get(&account2),
        Some(&vec![AccountDeposit(
            ResourceBounds::new_empty()
                // A take of a specific amount has a new change source (and the worktop history records a take)
                .add_resource(
                    XRD,
                    ResourceBound::exact_amount(dec(10), vec![ChangeSource::bucket_at(1)]).unwrap()
                )
                .unwrap()
        )])
    );
}

#[test]
fn simple_account_transfer_with_two_deposits_is_correctly_classified() {
    // Arrange
    let account1 = account_address(1);
    let account2 = account_address(2);
    let manifest = ManifestBuilder::new_v2()
        .lock_fee_and_withdraw(account1, dec(100), XRD, dec(10))
        .take_from_worktop(XRD, dec(2), "bucket")
        .take_all_from_worktop(XRD, "bucket2")
        .deposit(account2, "bucket2")
        .deposit(account2, "bucket")
        .build();

    // Act
    let (deposits, withdraws) = statically_analyze(&manifest).unwrap();

    // Assert
    assert_eq!(withdraws.len(), 1);
    assert_eq!(deposits.len(), 1);
    assert_eq!(withdraws.get(&account1), Some(&vec![AccountWithdraw::Amount(XRD, dec(10))]));
    assert_eq!(
        deposits.get(&account2),
        Some(&vec![
            AccountDeposit(
                ResourceBounds::new_empty()
                    .add_resource(
                        XRD,
                        ResourceBound::new_advanced(
                            ResourceAddAmount::exact_amount(dec(8)).unwrap(),
                            ResourceChangeHistory::empty()
                                .record_add(
                                    ResourceAddAmount::exact_amount(dec(10)).unwrap(),
                                    vec![ChangeSource::invocation_at(0)]
                                )
                                .record_take(
                                    ResourceTakeAmount::exact_amount(dec(2)).unwrap(),
                                    ChangeSource::bucket_at(1)
                                )
                        )
                    )
                    .unwrap()
            ),
            AccountDeposit(
                ResourceBounds::new_empty()
                    .add_resource(
                        XRD,
                        ResourceBound::exact_amount(dec(2), vec![ChangeSource::bucket_at(1)]).unwrap()
                    )
                    .unwrap()
            ),
        ])
    );
}

#[test]
fn simple_account_transfer_with_a_take_all_is_correctly_classified() {
    // Arrange
    let account1 = account_address(1);
    let account2 = account_address(2);
    let manifest = ManifestBuilder::new_v2()
        .lock_fee_and_withdraw(account1, dec(100), XRD, dec(10))
        .take_all_from_worktop(XRD, "bucket")
        .deposit(account2, "bucket")
        .build();

    // Act
    let (deposits, withdraws) = statically_analyze(&manifest).unwrap();

    // Assert
    assert_eq!(withdraws.len(), 1);
    assert_eq!(deposits.len(), 1);
    assert_eq!(withdraws.get(&account1), Some(&vec![AccountWithdraw::Amount(XRD, dec(10))]));
    assert_eq!(
        deposits.get(&account2),
        Some(&vec![AccountDeposit(
            ResourceBounds::new_empty()
                .add_resource(
                    XRD,
                    ResourceBound::exact_amount(dec(10), vec![ChangeSource::invocation_at(0)]).unwrap()
                )
                .unwrap()
        )])
    );
}

#[test]
fn simple_account_transfer_deposit_batch_is_correctly_classified() {
    // Arrange
    let account1 = account_address(1);
    let account2 = account_address(2);
    let manifest = ManifestBuilder::new_subintent_v2()
        .lock_fee_and_withdraw(account1, dec(100), XRD, dec(10))
        .deposit_batch(account2, ManifestExpression::EntireWorktop)
        .yield_to_parent(())
        .build();

    // Act
    let (deposits, withdraws) = statically_analyze(&manifest).unwrap();

    // Assert
    assert_eq!(withdraws.len(), 1);
    assert_eq!(deposits.len(), 1);
    assert_eq!(withdraws.get(&account1), Some(&vec![AccountWithdraw::Amount(XRD, dec(10))]));
    assert_eq!(
        deposits.get(&account2),
        Some(&vec![AccountDeposit(
            ResourceBounds::new_including_unspecified_resources(vec![ChangeSource::InitialYieldFromParent])
                .add_resource(
                    XRD,
                    ResourceBound::exact_amount(dec(10), vec![ChangeSource::invocation_at(0)]).unwrap()
                )
                .unwrap()
        )])
    );
}

#[test]
fn simple_account_transfer_of_non_fungibles_by_amount_is_classified_correctly() {
    // Arrange
    let account1 = account_address(1);
    let account2 = account_address(2);
    let non_fungible_address = non_fungible_resource_address(1);
    let manifest = ManifestBuilder::new_subintent_v2()
        .lock_fee_and_withdraw(account1, dec(100), non_fungible_address, dec(10))
        .deposit_batch(account2, ManifestExpression::EntireWorktop)
        .yield_to_parent(())
        .build();

    // Act
    let (deposits, withdraws) = statically_analyze(&manifest).unwrap();

    // Assert
    assert_eq!(withdraws.len(), 1);
    assert_eq!(deposits.len(), 1);
    assert_eq!(
        withdraws.get(&account1),
        Some(&vec![AccountWithdraw::Amount(non_fungible_address, dec(10))])
    );
    assert_eq!(
        deposits.get(&account2),
        Some(&vec![AccountDeposit(
            ResourceBounds::new_including_unspecified_resources(vec![ChangeSource::InitialYieldFromParent])
                .add_resource(
                    non_fungible_address,
                    ResourceBound::exact_amount(dec(10), vec![ChangeSource::invocation_at(0)]).unwrap()
                )
                .unwrap()
        )]),
    );
}

#[test]
fn simple_account_transfer_of_non_fungibles_by_ids_is_classified_correctly() {
    // Arrange
    let account1 = account_address(1);
    let account2 = account_address(2);
    let non_fungible_address = non_fungible_resource_address(1);
    let manifest = ManifestBuilder::new_v2()
        .lock_fee_and_withdraw_non_fungibles(
            account1,
            dec(100),
            non_fungible_address,
            vec![NonFungibleLocalId::integer(1)],
        )
        .deposit_batch(account2, ManifestExpression::EntireWorktop)
        .build();

    // Act
    let (deposits, withdraws) = statically_analyze(&manifest).unwrap();

    // Assert
    assert_eq!(withdraws.len(), 1);
    assert_eq!(deposits.len(), 1);
    assert_eq!(
        withdraws.get(&account1),
        Some(&vec![AccountWithdraw::Ids(non_fungible_address, vec![NonFungibleLocalId::integer(1)])])
    );
    assert_eq!(
        deposits.get(&account2),
        Some(&vec![AccountDeposit(
            ResourceBounds::new_empty()
                .add_resource(
                    non_fungible_address,
                    ResourceBound::non_fungibles(
                        vec![NonFungibleLocalId::integer(1)],
                        vec![ChangeSource::invocation_at(0)],
                    )
                )
                .unwrap()
        )]),
    );
}

#[test]
fn assertion_of_any_with_nothing_on_worktop_does_nothing() {
    // Arrange
    let account = account_address(1);
    let manifest = ManifestBuilder::new_v2()
        .assert_worktop_contains_any(XRD)
        .deposit_batch(account, ManifestExpression::EntireWorktop)
        .build();

    // Act
    let error = statically_analyze(&manifest).unwrap_err();

    // Assert
    assert_eq!(error, StaticResourceMovementsError::AssertionCannotBeSatisfied);
}

#[test]
fn assertion_of_any_with_unknown_on_worktop_gives_context_to_visitor() {
    // Arrange
    let account = account_address(1);
    let manifest = ManifestBuilder::new_v2()
        .call_method(component_address(1), "random", ())
        .call_method(component_address(1), "random2", ())
        .assert_worktop_contains_any(XRD)
        .deposit_batch(account, ManifestExpression::EntireWorktop)
        .build();

    // Act
    let (deposits, withdraws) = statically_analyze(&manifest).unwrap();

    // Assert
    let expected_uncertainties =
        vec![ChangeSource::Invocation { instruction_index: 0 }, ChangeSource::Invocation { instruction_index: 1 }];
    assert_eq!(withdraws.len(), 0);
    assert_eq!(deposits.len(), 1);
    assert_eq!(withdraws.get(&account), None);
    assert_eq!(
        deposits.get(&account),
        Some(&vec![AccountDeposit(
            ResourceBounds::new_empty()
                .add_resource(
                    XRD,
                    ResourceBound::new_advanced(
                        ResourceAddAmount::non_zero_amount(),
                        ResourceChangeHistory::empty()
                            .record_add(ResourceAddAmount::zero_or_more(), expected_uncertainties.clone())
                            .record_assertion(ResourceAssertion::non_zero_amount(), ChangeSource::assertion_at(2)),
                    )
                )
                .unwrap()
                .add_unspecified_resources(expected_uncertainties)
        )]),
    );
}

#[test]
fn assertion_of_ids_gives_context_to_visitor() {
    // Arrange
    let account = account_address(1);
    let non_fungible_address = non_fungible_resource_address(1);
    let manifest = ManifestBuilder::new_v2()
        .call_method(component_address(1), "random", ())
        .assert_worktop_contains_non_fungibles(non_fungible_address, vec![NonFungibleLocalId::integer(1)])
        .deposit_batch(account, ManifestExpression::EntireWorktop)
        .build();

    // Act
    let (deposits, withdraws) = statically_analyze(&manifest).unwrap();

    // Assert
    assert_eq!(withdraws.len(), 0);
    assert_eq!(deposits.len(), 1);
    assert_eq!(withdraws.get(&account), None);
    assert_eq!(
        deposits.get(&account),
        Some(&vec![AccountDeposit(
            ResourceBounds::new_including_unspecified_resources(vec![ChangeSource::invocation_at(0)])
                .add_resource(
                    non_fungible_address,
                    ResourceBound::new_advanced(
                        ResourceAddAmount::at_least_non_fungibles(vec![NonFungibleLocalId::integer(1)]),
                        // Appends to the unspecified add from the blanket add above
                        ResourceChangeHistory::empty().record_assertion(
                            ResourceAssertion::at_least_non_fungibles(vec![NonFungibleLocalId::integer(1)]),
                            ChangeSource::assertion_at(1)
                        ),
                    )
                )
                .unwrap()
        )]),
    );
}

#[test]
fn complex_assertion_of_amount_gives_context_to_visitor() {
    // Arrange
    let account = account_address(1);
    let resource_address = fungible_resource_address(5);
    let resource_address2 = fungible_resource_address(8);
    let builder = ManifestBuilder::new_v2();
    let lookup = builder.name_lookup();
    let manifest = builder
        .call_method(component_address(1), "random", ())
        .assert_worktop_contains(resource_address, dec(10))
        .assert_worktop_contains(resource_address2, dec(5))
        .take_from_worktop(resource_address, dec(10), "bucket")
        .take_from_worktop(resource_address2, dec(7), "bucket2")
        .deposit_buckets(account, vec![lookup.bucket("bucket")])
        .assert_worktop_is_empty()
        .return_to_worktop("bucket2")
        .deposit_batch(account, ManifestExpression::EntireWorktop)
        .build();

    // Act
    let (deposits, withdraws) = statically_analyze(&manifest).unwrap();

    // Assert
    assert_eq!(withdraws.len(), 0);
    assert_eq!(deposits.len(), 1);
    assert_eq!(withdraws.get(&account), None);
    assert_eq!(
        deposits.get(&account),
        Some(&vec![
            AccountDeposit(
                ResourceBounds::new_empty()
                    .add_resource(
                        resource_address,
                        ResourceBound::exact_amount(dec(10), vec![ChangeSource::bucket_at(3)]).unwrap()
                    )
                    .unwrap()
            ),
            AccountDeposit(
                ResourceBounds::new_empty()
                    .add_resource(
                        resource_address2,
                        ResourceBound::exact_amount(dec(7), vec![ChangeSource::bucket_at(4)]).unwrap()
                    )
                    .unwrap()
            ),
        ]),
    );
}

#[test]
fn asserting_an_empty_worktop_that_holds_something_cannot_be_satisfied() {
    let manifest = ManifestBuilder::new_v2()
        .lock_fee_and_withdraw(account_address(1), dec(1), XRD, dec(3))
        .assert_worktop_is_empty()
        .build();
    assert_eq!(
        statically_analyze(&manifest).unwrap_err(),
        StaticResourceMovementsError::AssertionCannotBeSatisfied
    );
}

#[test]
fn asserting_more_than_an_exact_amount_cannot_be_satisfied() {
    let manifest = ManifestBuilder::new_v2()
        .lock_fee_and_withdraw(account_address(1), dec(1), XRD, dec(3))
        .assert_worktop_contains(XRD, dec(4))
        .build();
    assert_eq!(
        statically_analyze(&manifest).unwrap_err(),
        StaticResourceMovementsError::AssertionCannotBeSatisfied
    );
}

#[test]
fn depositing_several_buckets_together_adds_them_up() {
    let account1 = account_address(1);
    let account2 = account_address(2);
    let builder = ManifestBuilder::new_v2();
    let lookup = builder.name_lookup();
    let manifest = builder
        .lock_fee_and_withdraw(account1, dec(1), XRD, dec(10))
        .take_from_worktop(XRD, dec(4), "a")
        .take_all_from_worktop(XRD, "b")
        .deposit_buckets(account2, vec![lookup.bucket("a"), lookup.bucket("b")])
        .build();
    let (deposits, _) = statically_analyze(&manifest).unwrap();
    let expected = ResourceBounds::new_empty()
        .add_resource(XRD, ResourceBound::exact_amount(dec(4), vec![ChangeSource::bucket_at(1)]).unwrap())
        .unwrap()
        .add_resource(
            XRD,
            ResourceBound::new_advanced(
                ResourceAddAmount::exact_amount(dec(6)).unwrap(),
                ResourceChangeHistory::empty()
                    .record_add(ResourceAddAmount::exact_amount(dec(10)).unwrap(), vec![ChangeSource::invocation_at(0)])
                    .record_take(ResourceTakeAmount::exact_amount(dec(4)).unwrap(), ChangeSource::bucket_at(1)),
            ),
        )
        .unwrap();
    assert_eq!(deposits.get(&account2), Some(&vec![AccountDeposit(expected)]));
    match &deposits.get(&account2).unwrap()[0] {
        AccountDeposit(bounds) => assert_eq!(
            bounds,
            &ResourceBounds::new_empty()
                .add_resource(
                    XRD,
                    ResourceBound::new_advanced(
                        ResourceAddAmount::exact_amount(dec(10)).unwrap(),
                        ResourceChangeHistory::empty()
                            .record_add(ResourceAddAmount::exact_amount(dec(4)).unwrap(), vec![ChangeSource::bucket_at(1)])
                            .record_add(ResourceAddAmount::exact_amount(dec(10)).unwrap(), vec![ChangeSource::invocation_at(0)])
                            .record_take(ResourceTakeAmount::exact_amount(dec(4)).unwrap(), ChangeSource::bucket_at(1)),
                    )
                )
                .unwrap()
        ),
    }
}

#[test]
fn taking_more_than_the_worktop_holds_cannot_be_satisfied() {
    let account1 = account_address(1);
    let manifest = ManifestBuilder::new_v2()
        .lock_fee_and_withdraw(account1, dec(100), XRD, dec(10))
        .take_from_worktop(XRD, dec(11), "bucket")
        .build();
    assert_eq!(
        statically_analyze(&manifest).unwrap_err(),
        StaticResourceMovementsError::TakeCannotBeSatisfied
    );
}

#[test]
fn depositing_an_unknown_bucket_is_refused() {
    let manifest = ManifestBuilder::new_v2().deposit(account_address(1), "missing").build();
    assert_eq!(statically_analyze(&manifest).unwrap_err(), StaticResourceMovementsError::BucketNotFound);
}

#[test]
fn withdrawing_a_negative_amount_is_refused() {
    let manifest = ManifestBuilder::new_v2()
        .lock_fee_and_withdraw(account_address(1), dec(1), XRD, Decimal { attos: -1 })
        .build();
    assert_eq!(statically_analyze(&manifest).unwrap_err(), StaticResourceMovementsError::NegativeAmount);
}

#[test]
fn an_unknown_call_makes_known_amounts_inexact() {
    let account1 = account_address(1);
    let account2 = account_address(2);
    let manifest = ManifestBuilder::new_v2()
        .lock_fee_and_withdraw(account1, dec(100), XRD, dec(10))
        .call_method(component_address(1), "random", ())
        .deposit_batch(account2, ManifestExpression::EntireWorktop)
        .build();
    let (deposits, _) = statically_analyze(&manifest).unwrap();
    assert_eq!(
        deposits.get(&account2),
        Some(&vec![AccountDeposit(
            ResourceBounds::new_empty()
                .add_resource(
                    XRD,
                    ResourceBound::new_advanced(
                        ResourceAddAmount::Amount { amount: dec(10), exact: false, non_zero: true },
                        ResourceChangeHistory::empty()
                            .record_add(
                                ResourceAddAmount::exact_amount(dec(10)).unwrap(),
                                vec![ChangeSource::invocation_at(0)]
                            )
                            .record_add(ResourceAddAmount::zero_or_more(), vec![ChangeSource::invocation_at(1)]),
                    )
                )
                .unwrap()
                .add_unspecified_resources(vec![ChangeSource::invocation_at(1)])
        )])
    );
}

#[test]
fn adding_amounts_sums_them() {
    let a = ResourceAddAmount::exact_amount(dec(3)).unwrap();
    let b = ResourceAddAmount::exact_amount(dec(4)).unwrap();
    assert_eq!(a.add(&b).unwrap(), ResourceAddAmount::exact_amount(dec(7)).unwrap());
    let c = ResourceAddAmount::zero_or_more();
    assert_eq!(
        a.add(&c).unwrap(),
        ResourceAddAmount::Amount { amount: dec(3), exact: false, non_zero: true }
    );
}

fn account_address(id: u8) -> ComponentAddress {
    let mut bytes = [0u8; 30];
    bytes[0] = 0xd1;
    bytes[29] = id;
    ComponentAddress(bytes)
}

fn component_address(id: u8) -> ComponentAddress {
    let mut bytes = [0u8; 30];
    bytes[0] = 0xc0;
    bytes[29] = id;
    ComponentAddress(bytes)
}

fn fungible_resource_address(id: u8) -> ResourceAddress {
    let mut bytes = [0u8; 30];
    bytes[0] = 0x5d;
    bytes[29] = id;
    ResourceAddress(bytes)
}

fn non_fungible_resource_address(id: u8) -> ResourceAddress {
    let mut bytes = [0u8; 30];
    bytes[0] = 0x9a;
    bytes[29] = id;
    ResourceAddress(bytes)
}

type Movements = (
    AssocMap<ComponentAddress, Vec<AccountDeposit>>,
    AssocMap<ComponentAddress, Vec<AccountWithdraw>>,
);

fn statically_analyze(manifest: &Manifest) -> Result<Movements, StaticResourceMovementsError> {
    let mut visitor = StaticResourceMovementsVisitor::new(manifest.is_subintent());
    visitor.apply(manifest)?;
    let output = visitor.output();
    Ok((output.account_deposits().clone(), output.account_withdraws().clone()))
}
