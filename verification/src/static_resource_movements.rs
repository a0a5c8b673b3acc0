use vstd::prelude::*;

use crate::manifest::{InstructionView, Manifest, ManifestBucket, ManifestInstruction, bucket_names, instructions_view};
use crate::types::{ATTOS_PER_UNIT, ComponentAddress, Decimal, LocalIdView, NonFungibleLocalId, ResourceAddress};
use crate::assoc_map::{AssocMap, KeyEq, keys_distinct, lemma_seq_to_map_dom, lemma_seq_to_map_value, seq_to_map};

verus! {

/// Where a change to a resource's bound came from.
#[derive(Debug, Clone, Copy, PartialEq, Eq, Structural)]
pub enum ChangeSource {
    /// The resources that the parent intent yielded to this subintent when it started.
    InitialYieldFromParent,
    /// What the invocation at this instruction returned.
    Invocation { instruction_index: usize },
    /// The bucket created at this instruction.
    NewBucket { instruction_index: usize },
    /// The assertion at this instruction.
    Assertion { instruction_index: usize },
}

impl ChangeSource {
    /// The invocation at instruction `instruction_index`.
    pub fn invocation_at(instruction_index: usize) -> (r: Self)
        ensures
            r == (ChangeSource::Invocation { instruction_index }),
    {
        ChangeSource::Invocation { instruction_index }
    }

    /// The bucket created at instruction `instruction_index`.
    pub fn bucket_at(instruction_index: usize) -> (r: Self)
        ensures
            r == (ChangeSource::NewBucket { instruction_index }),
    {
        ChangeSource::NewBucket { instruction_index }
    }

    /// The assertion at instruction `instruction_index`.
    pub fn assertion_at(instruction_index: usize) -> (r: Self)
        ensures
            r == (ChangeSource::Assertion { instruction_index }),
    {
        ChangeSource::Assertion { instruction_index }
    }
}

/// Why a manifest's resource movements could not be worked out.
#[derive(Debug, Clone, Copy, PartialEq, Eq, Structural)]
pub enum StaticResourceMovementsError {
    /// An amount was negative.
    NegativeAmount,
    /// An amount left the range of decimals.
    DecimalOverflow,
    /// A take from the worktop asks for more than the worktop surely holds.
    TakeCannotBeSatisfied,
    /// An assertion on the worktop can never hold.
    AssertionCannotBeSatisfied,
    /// A bucket was used after it was consumed.
    BucketNotFound,
}

/// What is known of the amount of a resource: an amount of it, exactly or at least (and then
/// possibly known to be non-zero), or a set of its non-fungibles, exactly or at least.
#[derive(Debug, Clone, PartialEq, Eq)]
pub enum ResourceAddAmount {
    Amount { amount: Decimal, exact: bool, non_zero: bool },
    NonFungibles { ids: Vec<NonFungibleLocalId>, exact: bool },
}

/// A bound on an amount, as mathematical values.
pub enum AmountView {
    Amount { amount: int, exact: bool, non_zero: bool },
    NonFungibles { ids: Seq<LocalIdView>, exact: bool },
}

/// The views of a list of local ids.
pub open spec fn ids_view(ids: Seq<NonFungibleLocalId>) -> Seq<LocalIdView> {
    ids.map_values(|id: NonFungibleLocalId| id@)
}

impl View for ResourceAddAmount {
    type V = AmountView;

    open spec fn view(&self) -> AmountView {
        match self {
            ResourceAddAmount::Amount { amount, exact, non_zero } =>
                AmountView::Amount { amount: amount.attos as int, exact: *exact, non_zero: *non_zero },
            ResourceAddAmount::NonFungibles { ids, exact } =>
                AmountView::NonFungibles { ids: ids_view(ids@), exact: *exact },
        }
    }
}

/// `b` with the ids of `extra` that it lacks appended, in order.
pub open spec fn ids_union(b: Seq<LocalIdView>, extra: Seq<LocalIdView>) -> Seq<LocalIdView>
    decreases extra.len(),
{
    if extra.len() == 0 {
        b
    } else {
        let u = ids_union(b, extra.drop_last());
        if u.contains(extra.last()) { u } else { u.push(extra.last()) }
    }
}

/// Whether `x` lies in the range of decimals.
pub open spec fn in_decimal_range(x: int) -> bool {
    i128::MIN <= x <= i128::MAX
}

/// An amount of `n` whole units.
pub open spec fn units(n: int) -> int {
    n * ATTOS_PER_UNIT
}

/// An amount bound as an amount: a set of non-fungibles counts one unit each.
pub open spec fn as_amount(a: AmountView) -> (int, bool, bool) {
    match a {
        AmountView::Amount { amount, exact, non_zero } => (amount, exact, non_zero),
        AmountView::NonFungibles { ids, exact } => (units(ids.len() as int), exact, ids.len() > 0),
    }
}

/// Whether a bound says nothing but "any amount, possibly none".
pub open spec fn is_zero_or_more(a: AmountView) -> bool {
    a == (AmountView::Amount { amount: 0, exact: false, non_zero: false })
}

/// What is known of the sum of two amounts.
pub open spec fn add_amounts(a: AmountView, b: AmountView) -> Result<AmountView, StaticResourceMovementsError> {
    if a is NonFungibles && b is NonFungibles {
        Ok(AmountView::NonFungibles { ids: ids_union(a->ids, b->ids), exact: a->NonFungibles_exact && b->NonFungibles_exact })
    } else if is_zero_or_more(a) && b is NonFungibles {
        Ok(AmountView::NonFungibles { ids: b->ids, exact: false })
    } else if is_zero_or_more(b) && a is NonFungibles {
        Ok(AmountView::NonFungibles { ids: a->ids, exact: false })
    } else {
        let (x, ex, nx) = as_amount(a);
        let (y, ey, ny) = as_amount(b);
        if in_decimal_range(x + y) {
            Ok(AmountView::Amount { amount: x + y, exact: ex && ey, non_zero: nx || ny || x + y > 0 })
        } else {
            Err(StaticResourceMovementsError::DecimalOverflow)
        }
    }
}

/// What is known of an amount after an exact amount `t` was taken out of it.
pub open spec fn take_from_amount(a: AmountView, t: int) -> Result<AmountView, StaticResourceMovementsError> {
    let (x, exact, _) = as_amount(a);
    if t < 0 {
        Err(StaticResourceMovementsError::NegativeAmount)
    } else if x >= t {
        Ok(AmountView::Amount { amount: x - t, exact, non_zero: x - t > 0 })
    } else if exact {
        Err(StaticResourceMovementsError::TakeCannotBeSatisfied)
    } else {
        Ok(AmountView::Amount { amount: 0, exact: false, non_zero: false })
    }
}

/// What is known of an amount once it was asserted to be non-zero.
pub open spec fn assert_non_zero(a: AmountView) -> Result<AmountView, StaticResourceMovementsError> {
    match a {
        AmountView::Amount { amount, exact, non_zero } =>
            if exact && amount == 0 {
                Err(StaticResourceMovementsError::AssertionCannotBeSatisfied)
            } else {
                Ok(AmountView::Amount { amount, exact, non_zero: true })
            },
        AmountView::NonFungibles { ids, exact } =>
            if ids.len() > 0 {
                Ok(a)
            } else if exact {
                Err(StaticResourceMovementsError::AssertionCannotBeSatisfied)
            } else {
                Ok(AmountView::Amount { amount: 0, exact: false, non_zero: true })
            },
    }
}

/// What is known of an amount once it was asserted to be at least `t`; a negative `t` is
/// refused.
pub open spec fn assert_at_least(a: AmountView, t: int) -> Result<AmountView, StaticResourceMovementsError> {
    if t < 0 {
        Err(StaticResourceMovementsError::NegativeAmount)
    } else {
        match a {
            AmountView::Amount { amount, exact, non_zero } =>
                if amount >= t {
                    Ok(AmountView::Amount { amount, exact, non_zero: non_zero || t > 0 })
                } else if exact {
                    Err(StaticResourceMovementsError::AssertionCannotBeSatisfied)
                } else {
                    Ok(AmountView::Amount { amount: t, exact: false, non_zero: non_zero || t > 0 })
                },
            AmountView::NonFungibles { ids, exact } =>
                if units(ids.len() as int) >= t {
                    Ok(a)
                } else if exact {
                    Err(StaticResourceMovementsError::AssertionCannotBeSatisfied)
                } else {
                    Ok(AmountView::Amount { amount: t, exact: false, non_zero: true })
                },
        }
    }
}

/// Whether every id of `required` is in `ids`.
pub open spec fn ids_include(ids: Seq<LocalIdView>, required: Seq<LocalIdView>) -> bool {
    forall|i: int| 0 <= i < required.len() ==> ids.contains(#[trigger] required[i])
}

/// What is known of an amount once it was asserted to hold at least the non-fungibles `required`.
pub open spec fn assert_non_fungibles(a: AmountView, required: Seq<LocalIdView>) -> Result<AmountView, StaticResourceMovementsError> {
    match a {
        AmountView::NonFungibles { ids, exact } =>
            if exact {
                if ids_include(ids, required) { Ok(a) } else { Err(StaticResourceMovementsError::AssertionCannotBeSatisfied) }
            } else {
                Ok(AmountView::NonFungibles { ids: ids_union(ids, required), exact: false })
            },
        AmountView::Amount { amount, exact, non_zero } =>
            if exact && amount < units(required.len() as int) {
                Err(StaticResourceMovementsError::AssertionCannotBeSatisfied)
            } else {
                Ok(AmountView::NonFungibles { ids: ids_union(Seq::empty(), required), exact: false })
            },
    }
}

fn copy_ids(ids: &Vec<NonFungibleLocalId>) -> (r: Vec<NonFungibleLocalId>)
    ensures
        ids_view(r@) == ids_view(ids@),
{
    let mut r: Vec<NonFungibleLocalId> = Vec::new();
    let n = ids.len();
    let mut i: usize = 0;
    while i < n
        invariant
            n == ids@.len(),
            i <= n,
            r@.len() == i,
            forall|j: int| 0 <= j < i ==> #[trigger] r@[j]@ == ids@[j]@,
        decreases n - i,
    {
        r.push(ids[i].duplicate());
        i = i + 1;
    }
    assert(ids_view(r@) =~= ids_view(ids@));
    r
}

fn ids_contain(ids: &Vec<NonFungibleLocalId>, id: &NonFungibleLocalId) -> (r: bool)
    ensures
        r == ids_view(ids@).contains(id@),
{
    let n = ids.len();
    let mut i: usize = 0;
    while i < n
        invariant
            n == ids@.len(),
            i <= n,
            forall|j: int| 0 <= j < i ==> ids_view(ids@)[j] != id@,
        decreases n - i,
    {
        if ids[i].key_eq(id) {
            assert(ids_view(ids@)[i as int] == id@);
            return true;
        }
        i = i + 1;
    }
    proof {
        if ids_view(ids@).contains(id@) {
            let j = choose|j: int| 0 <= j < ids_view(ids@).len() && ids_view(ids@)[j] == id@;
            assert(ids_view(ids@)[j] != id@);
        }
    }
    false
}
/// The ids of `b` followed by those of `extra` that are not among them yet.
fn union_ids(b: &Vec<NonFungibleLocalId>, extra: &Vec<NonFungibleLocalId>) -> (r: Vec<NonFungibleLocalId>)
    ensures
        ids_view(r@) == ids_union(ids_view(b@), ids_view(extra@)),
{
    let mut r = copy_ids(b);
    let n = extra.len();
    let mut i: usize = 0;
    while i < n
        invariant
            n == extra@.len(),
            i <= n,
            ids_view(r@) == ids_union(ids_view(b@), ids_view(extra@.take(i as int))),
        decreases n - i,
    {
        proof {
            let e = ids_view(extra@.take(i + 1));
            assert(e.drop_last() =~= ids_view(extra@.take(i as int)));
            assert(e.last() == extra@[i as int]@);
        }
        if !ids_contain(&r, &extra[i]) {
            r.push(extra[i].duplicate());
            proof {
                assert(ids_view(r@) =~= ids_view(r@.drop_last()).push(extra@[i as int]@));
            }
        }
        i = i + 1;
    }
    assert(extra@.take(n as int) =~= extra@);
    r
}

impl ResourceAddAmount {
    /// Exactly `amount`; a negative amount is refused.
    pub fn exact_amount(amount: Decimal) -> (r: Result<Self, StaticResourceMovementsError>)
        ensures
            amount.attos < 0 ==> r == Err::<Self, StaticResourceMovementsError>(StaticResourceMovementsError::NegativeAmount),
            amount.attos >= 0 ==> (r matches Ok(a) && a@ == AmountView::Amount {
                amount: amount.attos as int, exact: true, non_zero: amount.attos > 0 }),
    {
        if amount.attos < 0 {
            Err(StaticResourceMovementsError::NegativeAmount)
        } else {
            Ok(ResourceAddAmount::Amount { amount, exact: true, non_zero: amount.attos > 0 })
        }
    }

    /// Any amount, possibly none.
    pub fn zero_or_more() -> (r: Self)
        ensures
            r@ == (AmountView::Amount { amount: 0, exact: false, non_zero: false }),
    {
        ResourceAddAmount::Amount { amount: Decimal::zero(), exact: false, non_zero: false }
    }

    /// Some amount, not zero.
    pub fn non_zero_amount() -> (r: Self)
        ensures
            r@ == (AmountView::Amount { amount: 0, exact: false, non_zero: true }),
    {
        ResourceAddAmount::Amount { amount: Decimal::zero(), exact: false, non_zero: true }
    }

    /// At least the non-fungibles `ids`.
    pub fn at_least_non_fungibles(ids: Vec<NonFungibleLocalId>) -> (r: Self)
        ensures
            r@ == (AmountView::NonFungibles { ids: ids_union(Seq::empty(), ids_view(ids@)), exact: false }),
    {
        let empty: Vec<NonFungibleLocalId> = Vec::new();
        assert(ids_view(empty@) =~= Seq::<LocalIdView>::empty());
        ResourceAddAmount::NonFungibles { ids: union_ids(&empty, &ids), exact: false }
    }

    /// Exactly the non-fungibles `ids`.
    pub fn exact_non_fungibles(ids: Vec<NonFungibleLocalId>) -> (r: Self)
        ensures
            r@ == (AmountView::NonFungibles { ids: ids_union(Seq::empty(), ids_view(ids@)), exact: true }),
    {
        let empty: Vec<NonFungibleLocalId> = Vec::new();
        assert(ids_view(empty@) =~= Seq::<LocalIdView>::empty());
        ResourceAddAmount::NonFungibles { ids: union_ids(&empty, &ids), exact: true }
    }

    /// A copy of this bound.
    pub fn duplicate(&self) -> (r: Self)
        ensures
            r@ == self@,
    {
        match self {
            ResourceAddAmount::Amount { amount, exact, non_zero } =>
                ResourceAddAmount::Amount { amount: *amount, exact: *exact, non_zero: *non_zero },
            ResourceAddAmount::NonFungibles { ids, exact } =>
                ResourceAddAmount::NonFungibles { ids: copy_ids(ids), exact: *exact },
        }
    }

    fn as_amount(&self) -> (r: (Decimal, bool, bool))
        ensures
            (r.0.attos as int, r.1, r.2) == as_amount(self@),
    {
        match self {
            ResourceAddAmount::Amount { amount, exact, non_zero } => (*amount, *exact, *non_zero),
            ResourceAddAmount::NonFungibles { ids, exact } => {
                let n = ids.len();
                assert(ids_view(ids@).len() == ids@.len());
                let count: i128 = n as i128;
                assert(count * ATTOS_PER_UNIT <= i128::MAX) by (nonlinear_arith)
                    requires 0 <= count <= 0xffff_ffff_ffff_ffff, ATTOS_PER_UNIT == 1_000_000_000_000_000_000i128;
                (Decimal { attos: count * ATTOS_PER_UNIT }, *exact, n > 0)
            },
        }
    }

    /// What is known of the sum of two amounts.
    pub fn add(&self, other: &Self) -> (r: Result<Self, StaticResourceMovementsError>)
        ensures
            match add_amounts(self@, other@) {
                Ok(v) => r matches Ok(a) && a@ == v,
                Err(e) => r == Err::<Self, StaticResourceMovementsError>(e),
            },
    {
        if let (ResourceAddAmount::NonFungibles { ids: x, exact: ex }, ResourceAddAmount::NonFungibles { ids: y, exact: ey }) = (self, other) {
            return Ok(ResourceAddAmount::NonFungibles { ids: union_ids(x, y), exact: *ex && *ey });
        }
        if let (ResourceAddAmount::Amount { amount, exact: false, non_zero: false }, ResourceAddAmount::NonFungibles { ids, exact: _ }) = (self, other) {
            if amount.attos == 0 {
                return Ok(ResourceAddAmount::NonFungibles { ids: copy_ids(ids), exact: false });
            }
        }
        if let (ResourceAddAmount::NonFungibles { ids, exact: _ }, ResourceAddAmount::Amount { amount, exact: false, non_zero: false }) = (self, other) {
            if amount.attos == 0 {
                return Ok(ResourceAddAmount::NonFungibles { ids: copy_ids(ids), exact: false });
            }
        }
        let (x, ex, nx) = self.as_amount();
        let (y, ey, ny) = other.as_amount();
        match x.attos.checked_add(y.attos) {
            Some(sum) => Ok(ResourceAddAmount::Amount { amount: Decimal { attos: sum }, exact: ex && ey, non_zero: nx || ny || sum > 0 }),
            None => Err(StaticResourceMovementsError::DecimalOverflow),
        }
    }

    /// What is known of this amount after the exact amount `taken` was taken out of it.
    pub fn take(&self, taken: Decimal) -> (r: Result<Self, StaticResourceMovementsError>)
        ensures
            match take_from_amount(self@, taken.attos as int) {
                Ok(v) => r matches Ok(a) && a@ == v,
                Err(e) => r == Err::<Self, StaticResourceMovementsError>(e),
            },
    {
        let (x, exact, _) = self.as_amount();
        if taken.attos < 0 {
            Err(StaticResourceMovementsError::NegativeAmount)
        } else if x.attos >= taken.attos {
            let left = x.attos - taken.attos;
            Ok(ResourceAddAmount::Amount { amount: Decimal { attos: left }, exact, non_zero: left > 0 })
        } else if exact {
            Err(StaticResourceMovementsError::TakeCannotBeSatisfied)
        } else {
            Ok(ResourceAddAmount::zero_or_more())
        }
    }

    /// What is known of this amount once it was asserted to be non-zero.
    pub fn assert_non_zero(&self) -> (r: Result<Self, StaticResourceMovementsError>)
        ensures
            match assert_non_zero(self@) {
                Ok(v) => r matches Ok(a) && a@ == v,
                Err(e) => r == Err::<Self, StaticResourceMovementsError>(e),
            },
    {
        match self {
            ResourceAddAmount::Amount { amount, exact, non_zero } => {
                if *exact && amount.attos == 0 {
                    Err(StaticResourceMovementsError::AssertionCannotBeSatisfied)
                } else {
                    Ok(ResourceAddAmount::Amount { amount: *amount, exact: *exact, non_zero: true })
                }
            },
            ResourceAddAmount::NonFungibles { ids, exact } => {
                if ids.len() > 0 {
                    Ok(self.duplicate())
                } else if *exact {
                    Err(StaticResourceMovementsError::AssertionCannotBeSatisfied)
                } else {
                    Ok(ResourceAddAmount::non_zero_amount())
                }
            },
        }
    }

    /// What is known of this amount once it was asserted to be at least `t`.
    pub fn assert_at_least(&self, t: Decimal) -> (r: Result<Self, StaticResourceMovementsError>)
        ensures
            match assert_at_least(self@, t.attos as int) {
                Ok(v) => r matches Ok(a) && a@ == v,
                Err(e) => r == Err::<Self, StaticResourceMovementsError>(e),
            },
    {
        if t.attos < 0 {
            return Err(StaticResourceMovementsError::NegativeAmount);
        }
        match self {
            ResourceAddAmount::Amount { amount, exact, non_zero } => {
                if amount.attos >= t.attos {
                    Ok(ResourceAddAmount::Amount { amount: *amount, exact: *exact, non_zero: *non_zero || t.attos > 0 })
                } else if *exact {
                    Err(StaticResourceMovementsError::AssertionCannotBeSatisfied)
                } else {
                    Ok(ResourceAddAmount::Amount { amount: t, exact: false, non_zero: *non_zero || t.attos > 0 })
                }
            },
            ResourceAddAmount::NonFungibles { ids, exact } => {
                let (held, _, _) = self.as_amount();
                if held.attos >= t.attos {
                    Ok(self.duplicate())
                } else if *exact {
                    Err(StaticResourceMovementsError::AssertionCannotBeSatisfied)
                } else {
                    Ok(ResourceAddAmount::Amount { amount: t, exact: false, non_zero: true })
                }
            },
        }
    }

    /// What is known of this amount once it was asserted to hold at least the non-fungibles
    /// `required`.
    pub fn assert_non_fungibles(&self, required: &Vec<NonFungibleLocalId>) -> (r: Result<Self, StaticResourceMovementsError>)
        ensures
            match assert_non_fungibles(self@, ids_view(required@)) {
                Ok(v) => r matches Ok(a) && a@ == v,
                Err(e) => r == Err::<Self, StaticResourceMovementsError>(e),
            },
    {
        match self {
            ResourceAddAmount::NonFungibles { ids, exact } => {
                if *exact {
                    let n = required.len();
                    let mut i: usize = 0;
                    while i < n
                        invariant
                            n == required@.len(),
                            i <= n,
                            self@ == (AmountView::NonFungibles { ids: ids_view(ids@), exact: true }),
                            forall|j: int| 0 <= j < i ==> ids_view(ids@).contains(#[trigger] ids_view(required@)[j]),
                        decreases n - i,
                    {
                        if !ids_contain(ids, &required[i]) {
                            proof {
                                assert(!ids_include(ids_view(ids@), ids_view(required@))) by {
                                    assert(!ids_view(ids@).contains(ids_view(required@)[i as int]));
                                }
                            }
                            return Err(StaticResourceMovementsError::AssertionCannotBeSatisfied);
                        }
                        i = i + 1;
                    }
                    Ok(self.duplicate())
                } else {
                    Ok(ResourceAddAmount::NonFungibles { ids: union_ids(ids, required), exact: false })
                }
            },
            ResourceAddAmount::Amount { amount, exact, non_zero } => {
                let n = required.len();
                assert(ids_view(required@).len() == required@.len());
                let count: i128 = n as i128;
                assert(count * ATTOS_PER_UNIT <= i128::MAX) by (nonlinear_arith)
                    requires 0 <= count <= 0xffff_ffff_ffff_ffff, ATTOS_PER_UNIT == 1_000_000_000_000_000_000i128;
                if *exact && amount.attos < count * ATTOS_PER_UNIT {
                    Err(StaticResourceMovementsError::AssertionCannotBeSatisfied)
                } else {
                    Ok(ResourceAddAmount::at_least_non_fungibles(copy_ids(required)))
                }
            },
        }
    }
}


impl ResourceAddAmount {
    /// Whether this amount may be nothing at all.
    pub fn possibly_zero(&self) -> (r: bool)
        ensures
            r == possibly_zero(self@),
    {
        match self {
            ResourceAddAmount::Amount { amount, exact: _, non_zero } => amount.attos == 0 && !*non_zero,
            ResourceAddAmount::NonFungibles { ids, exact: _ } => {
                assert(ids_view(ids@).len() == ids@.len());
                ids.len() == 0
            },
        }
    }
}

/// An amount taken out of the worktop: exactly this amount.
#[derive(Debug, Clone, Copy, PartialEq, Eq)]
pub struct ResourceTakeAmount {
    pub amount: Decimal,
}

impl ResourceTakeAmount {
    /// Exactly `amount`; a negative amount is refused.
    pub fn exact_amount(amount: Decimal) -> (r: Result<Self, StaticResourceMovementsError>)
        ensures
            amount.attos < 0 ==> r == Err::<Self, StaticResourceMovementsError>(StaticResourceMovementsError::NegativeAmount),
            amount.attos >= 0 ==> r == Ok::<Self, StaticResourceMovementsError>(ResourceTakeAmount { amount }),
    {
        if amount.attos < 0 {
            Err(StaticResourceMovementsError::NegativeAmount)
        } else {
            Ok(ResourceTakeAmount { amount })
        }
    }
}

/// What an assertion on the worktop claims of a resource.
#[derive(Debug, Clone, PartialEq, Eq)]
pub enum ResourceAssertion {
    NonZeroAmount,
    AtLeastAmount(Decimal),
    AtLeastNonFungibles(Vec<NonFungibleLocalId>),
}

/// An assertion as a mathematical value.
pub enum AssertionView {
    NonZeroAmount,
    AtLeastAmount(int),
    AtLeastNonFungibles(Seq<LocalIdView>),
}

impl View for ResourceAssertion {
    type V = AssertionView;

    open spec fn view(&self) -> AssertionView {
        match self {
            ResourceAssertion::NonZeroAmount => AssertionView::NonZeroAmount,
            ResourceAssertion::AtLeastAmount(a) => AssertionView::AtLeastAmount(a.attos as int),
            ResourceAssertion::AtLeastNonFungibles(ids) => AssertionView::AtLeastNonFungibles(ids_view(ids@)),
        }
    }
}

impl ResourceAssertion {
    /// The resource is present in a non-zero amount.
    pub fn non_zero_amount() -> (r: Self)
        ensures
            r@ == AssertionView::NonZeroAmount,
    {
        ResourceAssertion::NonZeroAmount
    }

    /// The resource is present in at least `amount`.
    pub fn at_least_amount(amount: Decimal) -> (r: Self)
        ensures
            r@ == AssertionView::AtLeastAmount(amount.attos as int),
    {
        ResourceAssertion::AtLeastAmount(amount)
    }

    /// The resource's non-fungibles include `ids`.
    pub fn at_least_non_fungibles(ids: Vec<NonFungibleLocalId>) -> (r: Self)
        ensures
            r@ == AssertionView::AtLeastNonFungibles(ids_view(ids@)),
    {
        ResourceAssertion::AtLeastNonFungibles(ids)
    }

    fn duplicate(&self) -> (r: Self)
        ensures
            r@ == self@,
    {
        match self {
            ResourceAssertion::NonZeroAmount => ResourceAssertion::NonZeroAmount,
            ResourceAssertion::AtLeastAmount(a) => ResourceAssertion::AtLeastAmount(*a),
            ResourceAssertion::AtLeastNonFungibles(ids) => ResourceAssertion::AtLeastNonFungibles(copy_ids(ids)),
        }
    }
}

/// One change in the history of a resource's bound.
#[derive(Debug, Clone, PartialEq, Eq)]
pub enum ResourceChange {
    Add { amount: ResourceAddAmount, sources: Vec<ChangeSource> },
    Take { amount: ResourceTakeAmount, source: ChangeSource },
    Assertion { assertion: ResourceAssertion, source: ChangeSource },
}

/// A change as a mathematical value.
pub enum ChangeView {
    Add(AmountView, Seq<ChangeSource>),
    Take(int, ChangeSource),
    Assertion(AssertionView, ChangeSource),
}

impl View for ResourceChange {
    type V = ChangeView;

    open spec fn view(&self) -> ChangeView {
        match self {
            ResourceChange::Add { amount, sources } => ChangeView::Add(amount@, sources@),
            ResourceChange::Take { amount, source } => ChangeView::Take(amount.amount.attos as int, *source),
            ResourceChange::Assertion { assertion, source } => ChangeView::Assertion(assertion@, *source),
        }
    }
}

fn copy_sources(v: &Vec<ChangeSource>) -> (r: Vec<ChangeSource>)
    ensures
        r@ == v@,
{
    let mut r: Vec<ChangeSource> = Vec::new();
    let n = v.len();
    let mut i: usize = 0;
    while i < n
        invariant
            n == v@.len(),
            i <= n,
            r@ == v@.take(i as int),
        decreases n - i,
    {
        r.push(v[i]);
        i = i + 1;
        assert(r@ =~= v@.take(i as int));
    }
    assert(r@ =~= v@);
    r
}

impl ResourceChange {
    fn duplicate(&self) -> (r: Self)
        ensures
            r@ == self@,
    {
        match self {
            ResourceChange::Add { amount, sources } =>
                ResourceChange::Add { amount: amount.duplicate(), sources: copy_sources(sources) },
            ResourceChange::Take { amount, source } => ResourceChange::Take { amount: *amount, source: *source },
            ResourceChange::Assertion { assertion, source } =>
                ResourceChange::Assertion { assertion: assertion.duplicate(), source: *source },
        }
    }
}

/// The changes that led to a resource's bound, oldest first.
#[derive(Debug, Clone, PartialEq, Eq)]
pub struct ResourceChangeHistory {
    pub changes: Vec<ResourceChange>,
}

/// The views of a list of changes.
pub open spec fn changes_view(changes: Seq<ResourceChange>) -> Seq<ChangeView> {
    changes.map_values(|c: ResourceChange| c@)
}

impl View for ResourceChangeHistory {
    type V = Seq<ChangeView>;

    open spec fn view(&self) -> Seq<ChangeView> {
        changes_view(self.changes@)
    }
}

impl ResourceChangeHistory {
    /// No changes.
    pub fn empty() -> (r: Self)
        ensures
            r@ == Seq::<ChangeView>::empty(),
    {
        let r = ResourceChangeHistory { changes: Vec::new() };
        assert(r@ =~= Seq::<ChangeView>::empty());
        r
    }

    fn record(self, change: ResourceChange) -> (r: Self)
        ensures
            r@ == self@.push(change@),
    {
        let mut changes = self.changes;
        let ghost old_changes = changes@;
        changes.push(change);
        let r = ResourceChangeHistory { changes };
        assert(r@ =~= changes_view(old_changes).push(change@));
        r
    }

    /// This history, then an addition of `amount` from `sources`.
    pub fn record_add(self, amount: ResourceAddAmount, sources: Vec<ChangeSource>) -> (r: Self)
        ensures
            r@ == self@.push(ChangeView::Add(amount@, sources@)),
    {
        self.record(ResourceChange::Add { amount, sources })
    }

    /// This history, then a take of `amount` into the bucket or call `source`.
    pub fn record_take(self, amount: ResourceTakeAmount, source: ChangeSource) -> (r: Self)
        ensures
            r@ == self@.push(ChangeView::Take(amount.amount.attos as int, source)),
    {
        self.record(ResourceChange::Take { amount, source })
    }

    /// This history, then the assertion `assertion` made at `source`.
    pub fn record_assertion(self, assertion: ResourceAssertion, source: ChangeSource) -> (r: Self)
        ensures
            r@ == self@.push(ChangeView::Assertion(assertion@, source)),
    {
        self.record(ResourceChange::Assertion { assertion, source })
    }

    fn duplicate(&self) -> (r: Self)
        ensures
            r@ == self@,
    {
        let mut changes: Vec<ResourceChange> = Vec::new();
        let n = self.changes.len();
        let mut i: usize = 0;
        while i < n
            invariant
                n == self.changes@.len(),
                i <= n,
                changes@.len() == i,
                forall|j: int| 0 <= j < i ==> #[trigger] changes@[j]@ == self.changes@[j]@,
            decreases n - i,
        {
            changes.push(self.changes[i].duplicate());
            i = i + 1;
        }
        let r = ResourceChangeHistory { changes };
        assert(r@ =~= self@);
        r
    }

    fn append(self, other: Self) -> (r: Self)
        ensures
            r@ == self@ + other@,
    {
        let mut changes = self.changes;
        let mut rest = other.changes;
        let ghost a = changes_view(changes@);
        let ghost b = changes_view(rest@);
        changes.append(&mut rest);
        let r = ResourceChangeHistory { changes };
        assert(r@ =~= a + b);
        r
    }
}

/// What is known of a resource somewhere: its amount, and how it came to be.
#[derive(Debug, Clone, PartialEq, Eq)]
pub struct ResourceBound {
    pub amount: ResourceAddAmount,
    pub history: ResourceChangeHistory,
}

/// A bound as mathematical values.
pub struct BoundView {
    pub amount: AmountView,
    pub history: Seq<ChangeView>,
}

impl View for ResourceBound {
    type V = BoundView;

    open spec fn view(&self) -> BoundView {
        BoundView { amount: self.amount@, history: self.history@ }
    }
}

/// A bound of exactly `amount`, added from `sources`.
pub open spec fn exact_bound(amount: int, sources: Seq<ChangeSource>) -> BoundView {
    let a = AmountView::Amount { amount, exact: true, non_zero: amount > 0 };
    BoundView { amount: a, history: seq![ChangeView::Add(a, sources)] }
}

/// A bound of exactly the non-fungibles `ids` (each once), added from `sources`.
pub open spec fn non_fungibles_bound(ids: Seq<LocalIdView>, sources: Seq<ChangeSource>) -> BoundView {
    let a = AmountView::NonFungibles { ids: ids_union(Seq::empty(), ids), exact: true };
    BoundView { amount: a, history: seq![ChangeView::Add(a, sources)] }
}

/// A bound of any amount, possibly none, added from `sources`.
pub open spec fn zero_or_more_bound(sources: Seq<ChangeSource>) -> BoundView {
    let a = AmountView::Amount { amount: 0, exact: false, non_zero: false };
    BoundView { amount: a, history: seq![ChangeView::Add(a, sources)] }
}

/// The bound of the sum of two resources: their amounts added, their histories one after the
/// other.
pub open spec fn combine_bounds(a: BoundView, b: BoundView) -> Result<BoundView, StaticResourceMovementsError> {
    match add_amounts(a.amount, b.amount) {
        Ok(amount) => Ok(BoundView { amount, history: a.history + b.history }),
        Err(e) => Err(e),
    }
}

impl ResourceBound {
    /// A bound with the given amount and history.
    pub fn new_advanced(amount: ResourceAddAmount, history: ResourceChangeHistory) -> (r: Self)
        ensures
            r@ == (BoundView { amount: amount@, history: history@ }),
    {
        ResourceBound { amount, history }
    }

    /// Exactly `amount`, added from `sources`; a negative amount is refused.
    pub fn exact_amount(amount: Decimal, sources: Vec<ChangeSource>) -> (r: Result<Self, StaticResourceMovementsError>)
        ensures
            amount.attos < 0 ==> r == Err::<Self, StaticResourceMovementsError>(StaticResourceMovementsError::NegativeAmount),
            amount.attos >= 0 ==> (r matches Ok(b) && b@ == exact_bound(amount.attos as int, sources@)),
    {
        let a = ResourceAddAmount::exact_amount(amount)?;
        let history = ResourceChangeHistory::empty().record_add(a.duplicate(), sources);
        let r = ResourceBound { amount: a, history };
        assert(r@.history =~= exact_bound(amount.attos as int, sources@).history);
        Ok(r)
    }

    /// Exactly the non-fungibles `ids`, added from `sources`.
    pub fn non_fungibles(ids: Vec<NonFungibleLocalId>, sources: Vec<ChangeSource>) -> (r: Self)
        ensures
            r@ == non_fungibles_bound(ids_view(ids@), sources@),
    {
        let a = ResourceAddAmount::exact_non_fungibles(ids);
        let history = ResourceChangeHistory::empty().record_add(a.duplicate(), sources);
        let r = ResourceBound { amount: a, history };
        assert(r@.history =~= seq![ChangeView::Add(a@, sources@)]);
        r
    }

    /// Any amount, possibly none, added from `sources`.
    pub fn zero_or_more(sources: Vec<ChangeSource>) -> (r: Self)
        ensures
            r@ == zero_or_more_bound(sources@),
    {
        let a = ResourceAddAmount::zero_or_more();
        let history = ResourceChangeHistory::empty().record_add(ResourceAddAmount::zero_or_more(), sources);
        let r = ResourceBound { amount: a, history };
        assert(r@.history =~= zero_or_more_bound(sources@).history);
        r
    }

    /// A copy of this bound.
    pub fn duplicate(&self) -> (r: Self)
        ensures
            r@ == self@,
    {
        ResourceBound { amount: self.amount.duplicate(), history: self.history.duplicate() }
    }

    /// The bound of this resource together with `other`.
    pub fn combine(self, other: Self) -> (r: Result<Self, StaticResourceMovementsError>)
        ensures
            match combine_bounds(self@, other@) {
                Ok(v) => r matches Ok(b) && b@ == v,
                Err(e) => r == Err::<Self, StaticResourceMovementsError>(e),
            },
    {
        let amount = self.amount.add(&other.amount)?;
        Ok(ResourceBound { amount, history: self.history.append(other.history) })
    }
}

/// What is known of a set of resources: a bound for each resource that is named, and, where
/// other resources may be present too, the sources that may have brought them.
#[derive(Debug, Clone, PartialEq, Eq)]
pub struct ResourceBounds {
    specified: AssocMap<ResourceAddress, ResourceBound>,
    unspecified: Option<Vec<ChangeSource>>,
}

/// A set of resource bounds as mathematical values.
pub struct BoundsView {
    /// The bound of each named resource, by the bytes of its address.
    pub specified: Map<Seq<u8>, BoundView>,
    /// Where resources that are not named may be present: the sources that may have brought them.
    pub unspecified: Option<Seq<ChangeSource>>,
}

/// The view of an optional list of change sources.
pub open spec fn sources_view(s: Option<Vec<ChangeSource>>) -> Option<Seq<ChangeSource>> {
    match s {
        Some(v) => Some(v@),
        None => None,
    }
}

impl View for ResourceBounds {
    type V = BoundsView;

    closed spec fn view(&self) -> BoundsView {
        BoundsView {
            specified: self.specified@.map_values(|b: ResourceBound| b@),
            unspecified: sources_view(self.unspecified),
        }
    }
}

/// No resources at all.
pub open spec fn empty_bounds() -> BoundsView {
    BoundsView { specified: Map::empty(), unspecified: None }
}

/// What is known of resource `r` in `w` before anything more is learnt of it: its bound if it is
/// named, any amount if other resources may be present, and nothing (`None`: it is absent)
/// otherwise.
pub open spec fn base_bound(w: BoundsView, r: Seq<u8>) -> Option<BoundView> {
    if w.specified.contains_key(r) {
        Some(w.specified[r])
    } else if w.unspecified is Some {
        Some(zero_or_more_bound(w.unspecified->0))
    } else {
        None
    }
}

/// `w` with the bound of resource `r` set to `b`.
pub open spec fn with_bound(w: BoundsView, r: Seq<u8>, b: BoundView) -> BoundsView {
    BoundsView { specified: w.specified.insert(r, b), unspecified: w.unspecified }
}

/// `w` with the bound `nb` of resource `r` added to what it holds of `r`.
pub open spec fn bounds_with_resource(w: BoundsView, r: Seq<u8>, nb: BoundView) -> Result<BoundsView, StaticResourceMovementsError> {
    match base_bound(w, r) {
        Some(b) => match combine_bounds(b, nb) {
            Ok(c) => Ok(with_bound(w, r, c)),
            Err(e) => Err(e),
        },
        None => Ok(with_bound(w, r, nb)),
    }
}

/// `w`, where resources that are not named may now also have come from `sources`.
pub open spec fn with_unspecified(w: BoundsView, sources: Seq<ChangeSource>) -> BoundsView {
    BoundsView {
        specified: w.specified,
        unspecified: Some(
            match w.unspecified {
                Some(u) => u + sources,
                None => sources,
            },
        ),
    }
}

impl ResourceBounds {
    /// The bounds are well formed: no resource is named twice.
    pub closed spec fn wf(&self) -> bool {
        self.specified.wf()
    }

    /// No resources.
    pub fn new_empty() -> (r: Self)
        ensures
            r.wf(),
            r@ == empty_bounds(),
    {
        let r = ResourceBounds { specified: AssocMap::new(), unspecified: None };
        assert(r@.specified =~= Map::<Seq<u8>, BoundView>::empty());
        r
    }

    /// No named resources, but possibly any others, brought by `sources`.
    pub fn new_including_unspecified_resources(sources: Vec<ChangeSource>) -> (r: Self)
        ensures
            r.wf(),
            r@ == (BoundsView { specified: Map::empty(), unspecified: Some(sources@) }),
    {
        let r = ResourceBounds { specified: AssocMap::new(), unspecified: Some(sources) };
        assert(r@.specified =~= Map::<Seq<u8>, BoundView>::empty());
        r
    }

    /// These bounds, where resources that are not named may also have come from `sources`.
    pub fn add_unspecified_resources(self, sources: Vec<ChangeSource>) -> (r: Self)
        requires
            self.wf(),
        ensures
            r.wf(),
            r@ == with_unspecified(self@, sources@),
    {
        let ResourceBounds { specified, unspecified } = self;
        let unspecified = match unspecified {
            Some(u) => {
                let mut u = u;
                let mut s = sources;
                u.append(&mut s);
                u
            },
            None => sources,
        };
        ResourceBounds { specified, unspecified: Some(unspecified) }
    }

    /// The bound of a named resource, taken out of the bounds.
    fn remove_bound(&mut self, resource: &ResourceAddress) -> (r: Option<ResourceBound>)
        requires
            old(self).wf(),
        ensures
            final(self).wf(),
            final(self)@ == (BoundsView {
                specified: old(self)@.specified.remove(resource@),
                unspecified: old(self)@.unspecified,
            }),
            match r {
                Some(b) => old(self)@.specified.contains_key(resource@) && b@ == old(self)@.specified[resource@],
                None => !old(self)@.specified.contains_key(resource@),
            },
    {
        let r = self.specified.remove(resource);
        assert(self@.specified =~= old(self)@.specified.remove(resource@));
        r
    }

    /// These bounds with the bound of `resource` set to `bound`.
    fn set_bound(&mut self, resource: ResourceAddress, bound: ResourceBound)
        requires
            old(self).wf(),
        ensures
            final(self).wf(),
            final(self)@ == with_bound(old(self)@, resource@, bound@),
    {
        self.specified.insert(resource, bound);
        assert(self@.specified =~= old(self)@.specified.insert(resource@, bound@));
    }

    /// What is known of `resource` before anything more is learnt of it, taken out of the
    /// bounds where it was named.
    fn take_base_bound(&mut self, resource: &ResourceAddress) -> (r: Option<ResourceBound>)
        requires
            old(self).wf(),
        ensures
            final(self).wf(),
            final(self)@ == (BoundsView {
                specified: old(self)@.specified.remove(resource@),
                unspecified: old(self)@.unspecified,
            }),
            match r {
                Some(b) => base_bound(old(self)@, resource@) == Some(b@),
                None => base_bound(old(self)@, resource@) is None,
            },
    {
        match self.remove_bound(resource) {
            Some(b) => Some(b),
            None => match &self.unspecified {
                Some(u) => Some(ResourceBound::zero_or_more(copy_sources(u))),
                None => None,
            },
        }
    }

    /// These bounds with the bound `bound` of `resource` added to what they hold of it.
    pub fn add_resource(self, resource: ResourceAddress, bound: ResourceBound) -> (r: Result<Self, StaticResourceMovementsError>)
        requires
            self.wf(),
        ensures
            match bounds_with_resource(self@, resource@, bound@) {
                Ok(v) => r matches Ok(x) && x.wf() && x@ == v,
                Err(e) => r == Err::<Self, StaticResourceMovementsError>(e),
            },
    {
        let mut s = self;
        let ghost w = s@;
        match s.take_base_bound(&resource) {
            Some(b) => {
                let c = b.combine(bound)?;
                s.set_bound(resource, c);
                assert(s@.specified =~= w.specified.insert(resource@, c@));
                Ok(s)
            },
            None => {
                s.set_bound(resource, bound);
                assert(s@.specified =~= w.specified.insert(resource@, bound@));
                Ok(s)
            },
        }
    }
}

/// The amount "any amount, possibly none".
pub open spec fn zero_or_more_amount() -> AmountView {
    AmountView::Amount { amount: 0, exact: false, non_zero: false }
}

/// What is known of an amount once an unknown amount, possibly none, may have joined it.
pub open spec fn widen_amount(a: AmountView) -> AmountView {
    match a {
        AmountView::NonFungibles { ids, exact: _ } => AmountView::NonFungibles { ids, exact: false },
        AmountView::Amount { amount, exact: _, non_zero } => AmountView::Amount { amount, exact: false, non_zero: non_zero || amount > 0 },
    }
}

/// A bound once an unknown amount, possibly none, may have joined it from `source`.
pub open spec fn widen(b: BoundView, source: ChangeSource) -> BoundView {
    BoundView {
        amount: widen_amount(b.amount),
        history: b.history.push(ChangeView::Add(zero_or_more_amount(), seq![source])),
    }
}

/// What is known of an amount once the assertion `asn` has held of it.
pub open spec fn assert_amount(a: AmountView, asn: AssertionView) -> Result<AmountView, StaticResourceMovementsError> {
    match asn {
        AssertionView::NonZeroAmount => assert_non_zero(a),
        AssertionView::AtLeastAmount(t) => assert_at_least(a, t),
        AssertionView::AtLeastNonFungibles(ids) => assert_non_fungibles(a, ids),
    }
}

/// Whether an assertion holds of a resource that is surely absent.
pub open spec fn assertion_vacuous(asn: AssertionView) -> bool {
    match asn {
        AssertionView::NonZeroAmount => false,
        AssertionView::AtLeastAmount(t) => t == 0,
        AssertionView::AtLeastNonFungibles(ids) => ids.len() == 0,
    }
}

/// `w` without resource `r` among its named resources.
pub open spec fn without(w: BoundsView, r: Seq<u8>) -> BoundsView {
    BoundsView { specified: w.specified.remove(r), unspecified: w.unspecified }
}

/// Taking all of resource `r` out of `w` into a bucket at instruction `i`: what is left, and the
/// bucket's bound (exactly nothing, where `r` is surely absent).
pub open spec fn take_all_spec(w: BoundsView, r: Seq<u8>, i: usize) -> (BoundsView, BoundView) {
    (
        without(w, r),
        match base_bound(w, r) {
            Some(b) => b,
            None => exact_bound(0, seq![ChangeSource::NewBucket { instruction_index: i }]),
        },
    )
}

/// Taking exactly `t` of resource `r` out of `w` into a bucket at instruction `i`: what is left,
/// and the bucket's bound; or why that cannot be done.
pub open spec fn take_amount_spec(w: BoundsView, r: Seq<u8>, t: int, i: usize) -> Result<(BoundsView, BoundView), StaticResourceMovementsError> {
    let source = ChangeSource::NewBucket { instruction_index: i };
    if t < 0 {
        Err(StaticResourceMovementsError::NegativeAmount)
    } else {
        match base_bound(w, r) {
            Some(b) => match take_from_amount(b.amount, t) {
                Ok(a) => Ok((
                    with_bound(w, r, BoundView { amount: a, history: b.history.push(ChangeView::Take(t, source)) }),
                    exact_bound(t, seq![source]),
                )),
                Err(e) => Err(e),
            },
            None => if t > 0 {
                Err(StaticResourceMovementsError::TakeCannotBeSatisfied)
            } else {
                Ok((w, exact_bound(t, seq![source])))
            },
        }
    }
}

/// `w` once the assertion `asn` on resource `r`, made at instruction `i`, has held; or why it
/// cannot hold.
pub open spec fn assert_spec(w: BoundsView, r: Seq<u8>, asn: AssertionView, i: usize) -> Result<BoundsView, StaticResourceMovementsError> {
    match base_bound(w, r) {
        Some(b) => match assert_amount(b.amount, asn) {
            Ok(a) => Ok(with_bound(w, r, BoundView {
                amount: a,
                history: b.history.push(ChangeView::Assertion(asn, ChangeSource::Assertion { instruction_index: i })),
            })),
            Err(e) => Err(e),
        },
        None => if asn is AtLeastAmount && asn->AtLeastAmount_0 < 0 {
            Err(StaticResourceMovementsError::NegativeAmount)
        } else if assertion_vacuous(asn) {
            Ok(w)
        } else {
            Err(StaticResourceMovementsError::AssertionCannotBeSatisfied)
        },
    }
}

/// `w` once an invocation, at `source`, may have returned any resources to it.
pub open spec fn unknown_output_spec(w: BoundsView, source: ChangeSource) -> BoundsView {
    BoundsView {
        specified: w.specified.map_values(|b: BoundView| widen(b, source)),
        unspecified: Some(
            match w.unspecified {
                Some(u) => u.push(source),
                None => seq![source],
            },
        ),
    }
}

impl ResourceBound {
    /// This bound once an unknown amount, possibly none, may have joined it from `source`.
    fn widened(&self, source: ChangeSource) -> (r: Self)
        ensures
            r@ == widen(self@, source),
    {
        let amount = match &self.amount {
            ResourceAddAmount::NonFungibles { ids, exact: _ } =>
                ResourceAddAmount::NonFungibles { ids: copy_ids(ids), exact: false },
            ResourceAddAmount::Amount { amount, exact: _, non_zero } =>
                ResourceAddAmount::Amount { amount: *amount, exact: false, non_zero: *non_zero || amount.attos > 0 },
        };
        let sources = vec![source];
        assert(sources@ =~= seq![source]);
        let history = self.history.duplicate().record_add(ResourceAddAmount::zero_or_more(), sources);
        ResourceBound { amount, history }
    }

    /// This bound after the exact amount `taken` left it for `source`.
    fn after_take(self, taken: ResourceTakeAmount, source: ChangeSource) -> (r: Result<Self, StaticResourceMovementsError>)
        ensures
            match take_from_amount(self@.amount, taken.amount.attos as int) {
                Ok(a) => r matches Ok(b) && b@ == (BoundView {
                    amount: a,
                    history: self@.history.push(ChangeView::Take(taken.amount.attos as int, source)),
                }),
                Err(e) => r == Err::<Self, StaticResourceMovementsError>(e),
            },
    {
        let amount = self.amount.take(taken.amount)?;
        Ok(ResourceBound { amount, history: self.history.record_take(taken, source) })
    }

    /// This bound once the assertion `assertion`, made at `source`, has held.
    fn after_assertion(self, assertion: ResourceAssertion, source: ChangeSource) -> (r: Result<Self, StaticResourceMovementsError>)
        ensures
            match assert_amount(self@.amount, assertion@) {
                Ok(a) => r matches Ok(b) && b@ == (BoundView {
                    amount: a,
                    history: self@.history.push(ChangeView::Assertion(assertion@, source)),
                }),
                Err(e) => r == Err::<Self, StaticResourceMovementsError>(e),
            },
    {
        let amount = match &assertion {
            ResourceAssertion::NonZeroAmount => self.amount.assert_non_zero()?,
            ResourceAssertion::AtLeastAmount(t) => self.amount.assert_at_least(*t)?,
            ResourceAssertion::AtLeastNonFungibles(ids) => self.amount.assert_non_fungibles(ids)?,
        };
        Ok(ResourceBound { amount, history: self.history.record_assertion(assertion, source) })
    }
}

proof fn lemma_widened_entries(
    s: Seq<(ResourceAddress, ResourceBound)>,
    t: Seq<(ResourceAddress, ResourceBound)>,
    source: ChangeSource,
)
    requires
        keys_distinct(s),
        t.len() == s.len(),
        forall|j: int| 0 <= j < s.len() ==> (#[trigger] t[j]).0 == s[j].0 && t[j].1@ == widen(s[j].1@, source),
    ensures
        keys_distinct(t),
        seq_to_map(t).map_values(|b: ResourceBound| b@) == seq_to_map(s).map_values(|b: ResourceBound| b@).map_values(
            |b: BoundView| widen(b, source),
        ),
{
    assert forall|a: int, b: int| 0 <= a < t.len() && 0 <= b < t.len() && a != b implies
        #[trigger] t[a].0@ != #[trigger] t[b].0@ by {
        assert(t[a].0 == s[a].0 && t[b].0 == s[b].0);
        assert(s[a].0@ != s[b].0@);
    }
    let m0 = seq_to_map(s);
    let m1 = seq_to_map(t);
    assert forall|k: Seq<u8>| #[trigger] m1.dom().contains(k) == m0.dom().contains(k) by {
        lemma_seq_to_map_dom(s, k);
        lemma_seq_to_map_dom(t, k);
        if m0.dom().contains(k) {
            let i = choose|i: int| 0 <= i < s.len() && #[trigger] s[i].0@ == k;
            assert(t[i].0@ == k);
        }
        if m1.dom().contains(k) {
            let i = choose|i: int| 0 <= i < t.len() && #[trigger] t[i].0@ == k;
            assert(t[i].0 == s[i].0);
            assert(s[i].0@ == k);
        }
    }
    assert forall|k: Seq<u8>| m0.dom().contains(k) implies #[trigger] m1[k]@ == widen(m0[k]@, source) by {
        lemma_seq_to_map_dom(s, k);
        let i = choose|i: int| 0 <= i < s.len() && #[trigger] s[i].0@ == k;
        lemma_seq_to_map_value(s, i);
        assert(t[i].0 == s[i].0);
        lemma_seq_to_map_value(t, i);
    }
    assert(m1.map_values(|b: ResourceBound| b@) =~= m0.map_values(|b: ResourceBound| b@).map_values(
        |b: BoundView| widen(b, source),
    ));
}

impl ResourceBounds {
    /// Takes all of `resource` into a bucket at instruction `index`.
    fn take_all(self, resource: ResourceAddress, index: usize) -> (r: (Self, ResourceBound))
        requires
            self.wf(),
        ensures
            r.0.wf(),
            (r.0@, r.1@) == take_all_spec(self@, resource@, index),
    {
        let mut s = self;
        match s.take_base_bound(&resource) {
            Some(b) => (s, b),
            None => {
                let sources = vec![ChangeSource::bucket_at(index)];
                assert(sources@ =~= seq![ChangeSource::NewBucket { instruction_index: index }]);
                let b = ResourceBound::exact_amount(Decimal::zero(), sources);
                match b {
                    Ok(b) => {
                        assert(b@ == exact_bound(0, seq![ChangeSource::NewBucket { instruction_index: index }]));
                        (s, b)
                    },
                    Err(_) => {
                        assert(false);
                        (s, ResourceBound::zero_or_more(Vec::new()))
                    },
                }
            },
        }
    }

    /// Takes exactly `amount` of `resource` into a bucket at instruction `index`.
    fn take_amount(self, resource: ResourceAddress, amount: Decimal, index: usize) -> (r: Result<(Self, ResourceBound), StaticResourceMovementsError>)
        requires
            self.wf(),
        ensures
            match take_amount_spec(self@, resource@, amount.attos as int, index) {
                Ok((w, b)) => r matches Ok(x) && x.0.wf() && x.0@ == w && x.1@ == b,
                Err(e) => r == Err::<(Self, ResourceBound), StaticResourceMovementsError>(e),
            },
    {
        let ghost w = self@;
        let taken = ResourceTakeAmount::exact_amount(amount)?;
        let source = ChangeSource::bucket_at(index);
        let sources = vec![source];
        assert(sources@ =~= seq![source]);
        let bucket = ResourceBound::exact_amount(amount, sources)?;
        let mut s = self;
        match s.take_base_bound(&resource) {
            Some(b) => {
                let nb = b.after_take(taken, source)?;
                s.set_bound(resource, nb);
                assert(s@.specified =~= w.specified.insert(resource@, nb@));
                Ok((s, bucket))
            },
            None => {
                if amount.attos > 0 {
                    Err(StaticResourceMovementsError::TakeCannotBeSatisfied)
                } else {
                    assert(s@.specified =~= w.specified);
                    Ok((s, bucket))
                }
            },
        }
    }

    /// Makes the assertion `assertion` on `resource` at instruction `index`.
    fn assert_contains(self, resource: ResourceAddress, assertion: ResourceAssertion, index: usize) -> (r: Result<Self, StaticResourceMovementsError>)
        requires
            self.wf(),
        ensures
            match assert_spec(self@, resource@, assertion@, index) {
                Ok(w) => r matches Ok(x) && x.wf() && x@ == w,
                Err(e) => r == Err::<Self, StaticResourceMovementsError>(e),
            },
    {
        let ghost w = self@;
        let mut s = self;
        match s.take_base_bound(&resource) {
            Some(b) => {
                let nb = b.after_assertion(assertion, ChangeSource::assertion_at(index))?;
                s.set_bound(resource, nb);
                assert(s@.specified =~= w.specified.insert(resource@, nb@));
                Ok(s)
            },
            None => {
                let vacuous = match &assertion {
                    ResourceAssertion::AtLeastNonFungibles(ids) => ids.len() == 0,
                    ResourceAssertion::AtLeastAmount(t) => {
                        if t.attos < 0 {
                            return Err(StaticResourceMovementsError::NegativeAmount);
                        }
                        t.attos == 0
                    },
                    ResourceAssertion::NonZeroAmount => false,
                };
                if vacuous {
                    assert(s@.specified =~= w.specified);
                    Ok(s)
                } else {
                    Err(StaticResourceMovementsError::AssertionCannotBeSatisfied)
                }
            },
        }
    }

    /// These bounds once an invocation at `source` may have returned any resources to them.
    fn add_unknown_output(self, source: ChangeSource) -> (r: Self)
        requires
            self.wf(),
        ensures
            r.wf(),
            r@ == unknown_output_spec(self@, source),
    {
        let ResourceBounds { specified, unspecified } = self;
        let ghost s0 = specified.entry_seq();
        proof { specified.lemma_view(); }
        let entries = specified.into_entries();
        let mut out: Vec<(ResourceAddress, ResourceBound)> = Vec::new();
        let n = entries.len();
        let mut i: usize = 0;
        while i < n
            invariant
                n == entries@.len(),
                entries@ == s0,
                i <= n,
                out@.len() == i,
                forall|j: int| 0 <= j < i ==> (#[trigger] out@[j]).0 == entries@[j].0 && out@[j].1@ == widen(entries@[j].1@, source),
            decreases n - i,
        {
            let e = &entries[i];
            out.push((e.0, e.1.widened(source)));
            i = i + 1;
        }
        proof { lemma_widened_entries(s0, out@, source); }
        let specified = AssocMap::from_entries(out);
        let unspecified = match unspecified {
            Some(u) => {
                let mut u = u;
                u.push(source);
                u
            },
            None => vec![source],
        };
        let r = ResourceBounds { specified, unspecified: Some(unspecified) };
        assert(r@.unspecified == unknown_output_spec(self@, source).unspecified);
        r
    }
}

/// A withdrawal from an account: an amount of a resource, or some of its non-fungibles.
#[derive(Debug, Clone, PartialEq, Eq)]
pub enum AccountWithdraw {
    Amount(ResourceAddress, Decimal),
    Ids(ResourceAddress, Vec<NonFungibleLocalId>),
}

/// A withdrawal as mathematical values.
pub enum WithdrawView {
    Amount(Seq<u8>, int),
    Ids(Seq<u8>, Seq<LocalIdView>),
}

impl View for AccountWithdraw {
    type V = WithdrawView;

    open spec fn view(&self) -> WithdrawView {
        match self {
            AccountWithdraw::Amount(r, a) => WithdrawView::Amount(r@, a.attos as int),
            AccountWithdraw::Ids(r, ids) => WithdrawView::Ids(r@, ids_view(ids@)),
        }
    }
}

/// A deposit into an account: what is known of the resources deposited.
#[derive(Debug, Clone, PartialEq, Eq)]
pub struct AccountDeposit(pub ResourceBounds);

impl View for AccountDeposit {
    type V = BoundsView;

    open spec fn view(&self) -> BoundsView {
        self.0@
    }
}

/// The deposits into each account, in order, as mathematical values.
pub open spec fn deposits_view(m: AssocMap<ComponentAddress, Vec<AccountDeposit>>) -> Map<Seq<u8>, Seq<BoundsView>> {
    m@.map_values(|v: Vec<AccountDeposit>| v@.map_values(|d: AccountDeposit| d@))
}

/// The withdrawals from each account, in order, as mathematical values.
pub open spec fn withdraws_view(m: AssocMap<ComponentAddress, Vec<AccountWithdraw>>) -> Map<Seq<u8>, Seq<WithdrawView>> {
    m@.map_values(|v: Vec<AccountWithdraw>| v@.map_values(|d: AccountWithdraw| d@))
}

/// The named buckets, as mathematical values: each holds a resource, with a bound.
pub open spec fn buckets_view(m: AssocMap<String, (ResourceAddress, ResourceBound)>) -> Map<Seq<char>, (Seq<u8>, BoundView)> {
    m@.map_values(|e: (ResourceAddress, ResourceBound)| (e.0@, e.1@))
}

/// `m` with `x` appended to the list of key `k`.
pub open spec fn append_to<T>(m: Map<Seq<u8>, Seq<T>>, k: Seq<u8>, x: T) -> Map<Seq<u8>, Seq<T>> {
    m.insert(k, if m.contains_key(k) { m[k].push(x) } else { seq![x] })
}

/// What the analysis knows at a point of a manifest: the worktop, the named buckets, and the
/// deposits into and withdrawals from each account so far.
pub struct VisitorView {
    pub worktop: BoundsView,
    pub buckets: Map<Seq<char>, (Seq<u8>, BoundView)>,
    pub deposits: Map<Seq<u8>, Seq<BoundsView>>,
    pub withdraws: Map<Seq<u8>, Seq<WithdrawView>>,
}

/// What the analysis knows before the first instruction: a subintent starts with whatever its
/// parent yielded to it on the worktop, a transaction intent with nothing.
pub open spec fn initial_view(is_subintent: bool) -> VisitorView {
    VisitorView {
        worktop: if is_subintent {
            BoundsView { specified: Map::empty(), unspecified: Some(seq![ChangeSource::InitialYieldFromParent]) }
        } else {
            empty_bounds()
        },
        buckets: Map::empty(),
        deposits: Map::empty(),
        withdraws: Map::empty(),
    }
}

/// Whether an amount may be nothing at all.
pub open spec fn possibly_zero(a: AmountView) -> bool {
    match a {
        AmountView::Amount { amount, exact: _, non_zero } => amount == 0 && !non_zero,
        AmountView::NonFungibles { ids, exact: _ } => ids.len() == 0,
    }
}

/// Whether the worktop may be empty: no named resource is surely present.
pub open spec fn possibly_empty(w: BoundsView) -> bool {
    forall|k: Seq<u8>| #[trigger] w.specified.contains_key(k) ==> possibly_zero(w.specified[k].amount)
}

/// The buckets named `names` taken out of `buckets`, in order, and their resources gathered
/// into one set of bounds; or why that cannot be done.
pub open spec fn gather_buckets(
    buckets: Map<Seq<char>, (Seq<u8>, BoundView)>,
    names: Seq<Seq<char>>,
) -> Result<(Map<Seq<char>, (Seq<u8>, BoundView)>, BoundsView), StaticResourceMovementsError>
    decreases names.len(),
{
    if names.len() == 0 {
        Ok((buckets, empty_bounds()))
    } else {
        match gather_buckets(buckets, names.drop_last()) {
            Ok((left, gathered)) => {
                let name = names.last();
                if left.contains_key(name) {
                    match bounds_with_resource(gathered, left[name].0, left[name].1) {
                        Ok(g) => Ok((left.remove(name), g)),
                        Err(e) => Err(e),
                    }
                } else {
                    Err(StaticResourceMovementsError::BucketNotFound)
                }
            },
            Err(e) => Err(e),
        }
    }
}

/// What the analysis knows after instruction `ins`, at position `i`, given what it knew before;
/// or why the manifest's resource movements cannot be worked out.
pub open spec fn visit_step(s: VisitorView, ins: InstructionView, i: usize) -> Result<VisitorView, StaticResourceMovementsError> {
    let invocation = ChangeSource::Invocation { instruction_index: i };
    match ins {
        InstructionView::LockFeeAndWithdraw { account, fee: _, resource, amount } =>
            if amount < 0 {
                Err(StaticResourceMovementsError::NegativeAmount)
            } else {
                match bounds_with_resource(s.worktop, resource, exact_bound(amount, seq![invocation])) {
                    Ok(w) => Ok(VisitorView {
                        worktop: w,
                        withdraws: append_to(s.withdraws, account, WithdrawView::Amount(resource, amount)),
                        ..s
                    }),
                    Err(e) => Err(e),
                }
            },
        InstructionView::LockFeeAndWithdrawNonFungibles { account, fee: _, resource, ids } =>
            match bounds_with_resource(s.worktop, resource, non_fungibles_bound(ids, seq![invocation])) {
                Ok(w) => Ok(VisitorView {
                    worktop: w,
                    withdraws: append_to(s.withdraws, account, WithdrawView::Ids(resource, ids)),
                    ..s
                }),
                Err(e) => Err(e),
            },
        InstructionView::TakeAllFromWorktop { resource, new_bucket } => {
            let (w, b) = take_all_spec(s.worktop, resource, i);
            Ok(VisitorView { worktop: w, buckets: s.buckets.insert(new_bucket, (resource, b)), ..s })
        },
        InstructionView::TakeFromWorktop { resource, amount, new_bucket } =>
            match take_amount_spec(s.worktop, resource, amount, i) {
                Ok((w, b)) => Ok(VisitorView { worktop: w, buckets: s.buckets.insert(new_bucket, (resource, b)), ..s }),
                Err(e) => Err(e),
            },
        InstructionView::AssertWorktopContainsAny { resource } =>
            match assert_spec(s.worktop, resource, AssertionView::NonZeroAmount, i) {
                Ok(w) => Ok(VisitorView { worktop: w, ..s }),
                Err(e) => Err(e),
            },
        InstructionView::AssertWorktopContainsNonFungibles { resource, ids } =>
            match assert_spec(s.worktop, resource, AssertionView::AtLeastNonFungibles(ids), i) {
                Ok(w) => Ok(VisitorView { worktop: w, ..s }),
                Err(e) => Err(e),
            },
        InstructionView::AssertWorktopContains { resource, amount } =>
            match assert_spec(s.worktop, resource, AssertionView::AtLeastAmount(amount), i) {
                Ok(w) => Ok(VisitorView { worktop: w, ..s }),
                Err(e) => Err(e),
            },
        InstructionView::AssertWorktopIsEmpty =>
            if possibly_empty(s.worktop) {
                Ok(VisitorView { worktop: empty_bounds(), ..s })
            } else {
                Err(StaticResourceMovementsError::AssertionCannotBeSatisfied)
            },
        InstructionView::ReturnToWorktop { bucket } =>
            if s.buckets.contains_key(bucket) {
                match bounds_with_resource(s.worktop, s.buckets[bucket].0, s.buckets[bucket].1) {
                    Ok(w) => Ok(VisitorView { worktop: w, buckets: s.buckets.remove(bucket), ..s }),
                    Err(e) => Err(e),
                }
            } else {
                Err(StaticResourceMovementsError::BucketNotFound)
            },
        InstructionView::DepositBuckets { account, buckets } =>
            match gather_buckets(s.buckets, buckets) {
                Ok((left, gathered)) => Ok(VisitorView {
                    buckets: left,
                    deposits: append_to(s.deposits, account, gathered),
                    ..s
                }),
                Err(e) => Err(e),
            },
        InstructionView::Deposit { account, bucket } =>
            if s.buckets.contains_key(bucket) {
                let (r, b) = s.buckets[bucket];
                Ok(VisitorView {
                    buckets: s.buckets.remove(bucket),
                    deposits: append_to(s.deposits, account, with_bound(empty_bounds(), r, b)),
                    ..s
                })
            } else {
                Err(StaticResourceMovementsError::BucketNotFound)
            },
        InstructionView::DepositEntireWorktop { account } =>
            Ok(VisitorView { worktop: empty_bounds(), deposits: append_to(s.deposits, account, s.worktop), ..s }),
        InstructionView::CallMethod { address: _, method_name: _ } =>
            Ok(VisitorView { worktop: unknown_output_spec(s.worktop, invocation), ..s }),
        InstructionView::YieldToParent => Ok(s),
    }
}

/// What the analysis knows after the instructions `ins`, given what it knew before them.
pub open spec fn visit_all(s: VisitorView, ins: Seq<InstructionView>) -> Result<VisitorView, StaticResourceMovementsError>
    decreases ins.len(),
{
    if ins.len() == 0 {
        Ok(s)
    } else {
        match visit_all(s, ins.drop_last()) {
            Ok(t) => visit_step(t, ins.last(), (ins.len() - 1) as usize),
            Err(e) => Err(e),
        }
    }
}

/// Works out, instruction by instruction, which resources a manifest moves out of and into
/// accounts, without running it.
pub struct StaticResourceMovementsVisitor {
    worktop: ResourceBounds,
    buckets: AssocMap<String, (ResourceAddress, ResourceBound)>,
    deposits: AssocMap<ComponentAddress, Vec<AccountDeposit>>,
    withdraws: AssocMap<ComponentAddress, Vec<AccountWithdraw>>,
}

impl View for StaticResourceMovementsVisitor {
    type V = VisitorView;

    closed spec fn view(&self) -> VisitorView {
        VisitorView {
            worktop: self.worktop@,
            buckets: buckets_view(self.buckets),
            deposits: deposits_view(self.deposits),
            withdraws: withdraws_view(self.withdraws),
        }
    }
}

fn append_deposit(m: &mut AssocMap<ComponentAddress, Vec<AccountDeposit>>, account: ComponentAddress, d: AccountDeposit)
    requires
        old(m).wf(),
    ensures
        final(m).wf(),
        deposits_view(*final(m)) == append_to(deposits_view(*old(m)), account@, d@),
{
    let ghost before = deposits_view(*m);
    let list = match m.remove(&account) {
        Some(v) => {
            let mut v = v;
            let ghost v0 = v@;
            v.push(d);
            assert(v@.map_values(|x: AccountDeposit| x@) =~= v0.map_values(|x: AccountDeposit| x@).push(d@));
            v
        },
        None => {
            let v = vec![d];
            assert(v@.map_values(|x: AccountDeposit| x@) =~= seq![d@]);
            v
        },
    };
    m.insert(account, list);
    assert(deposits_view(*m) =~= append_to(before, account@, d@));
}

fn append_withdraw(m: &mut AssocMap<ComponentAddress, Vec<AccountWithdraw>>, account: ComponentAddress, w: AccountWithdraw)
    requires
        old(m).wf(),
    ensures
        final(m).wf(),
        withdraws_view(*final(m)) == append_to(withdraws_view(*old(m)), account@, w@),
{
    let ghost before = withdraws_view(*m);
    let list = match m.remove(&account) {
        Some(v) => {
            let mut v = v;
            let ghost v0 = v@;
            v.push(w);
            assert(v@.map_values(|x: AccountWithdraw| x@) =~= v0.map_values(|x: AccountWithdraw| x@).push(w@));
            v
        },
        None => {
            let v = vec![w];
            assert(v@.map_values(|x: AccountWithdraw| x@) =~= seq![w@]);
            v
        },
    };
    m.insert(account, list);
    assert(withdraws_view(*m) =~= append_to(before, account@, w@));
}

impl StaticResourceMovementsVisitor {
    /// The visitor's parts are well formed: no key is held twice.
    pub closed spec fn wf(&self) -> bool {
        &&& self.worktop.wf()
        &&& self.buckets.wf()
        &&& self.deposits.wf()
        &&& self.withdraws.wf()
    }

    /// A visitor before the first instruction of a manifest; `is_subintent` says whether it is
    /// that of a subintent.
    pub fn new(is_subintent: bool) -> (r: Self)
        ensures
            r.wf(),
            r@ == initial_view(is_subintent),
    {
        let worktop = if is_subintent {
            let sources = vec![ChangeSource::InitialYieldFromParent];
            assert(sources@ =~= seq![ChangeSource::InitialYieldFromParent]);
            ResourceBounds::new_including_unspecified_resources(sources)
        } else {
            ResourceBounds::new_empty()
        };
        let r = StaticResourceMovementsVisitor {
            worktop,
            buckets: AssocMap::new(),
            deposits: AssocMap::new(),
            withdraws: AssocMap::new(),
        };
        assert(r@.buckets =~= Map::<Seq<char>, (Seq<u8>, BoundView)>::empty());
        assert(r@.deposits =~= Map::<Seq<u8>, Seq<BoundsView>>::empty());
        assert(r@.withdraws =~= Map::<Seq<u8>, Seq<WithdrawView>>::empty());
        r
    }
}

/// Once the analysis has failed on a prefix of the instructions, it fails on every longer
/// prefix, with the same error.
proof fn lemma_visit_all_stays_failed(s: VisitorView, ins: Seq<InstructionView>, k: int, m: int, e: StaticResourceMovementsError)
    requires
        0 <= k <= m <= ins.len(),
        visit_all(s, ins.take(k)) == Err::<VisitorView, StaticResourceMovementsError>(e),
    ensures
        visit_all(s, ins.take(m)) == Err::<VisitorView, StaticResourceMovementsError>(e),
    decreases m - k,
{
    if m > k {
        lemma_visit_all_stays_failed(s, ins, k, m - 1, e);
        assert(ins.take(m).drop_last() =~= ins.take(m - 1));
    }
}

impl StaticResourceMovementsVisitor {
    /// The visitor after instruction `ins`, at position `index`.
    fn visit(self, ins: &ManifestInstruction, index: usize) -> (r: Result<Self, StaticResourceMovementsError>)
        requires
            self.wf(),
        ensures
            match visit_step(self@, ins@, index) {
                Ok(v) => r matches Ok(x) && x.wf() && x@ == v,
                Err(e) => r == Err::<Self, StaticResourceMovementsError>(e),
            },
    {
        let ghost s = self@;
        let StaticResourceMovementsVisitor { worktop, buckets, deposits, withdraws } = self;
        let mut buckets = buckets;
        let mut deposits = deposits;
        let mut withdraws = withdraws;
        let invocation = ChangeSource::invocation_at(index);
        let sources = vec![invocation];
        assert(sources@ =~= seq![invocation]);
        match ins {
            ManifestInstruction::LockFeeAndWithdraw { account, fee: _, resource, amount } => {
                let bound = ResourceBound::exact_amount(*amount, sources)?;
                let worktop = worktop.add_resource(*resource, bound)?;
                append_withdraw(&mut withdraws, *account, AccountWithdraw::Amount(*resource, *amount));
                Ok(StaticResourceMovementsVisitor { worktop, buckets, deposits, withdraws })
            },
            ManifestInstruction::LockFeeAndWithdrawNonFungibles { account, fee: _, resource, ids } => {
                let bound = ResourceBound::non_fungibles(copy_ids(ids), sources);
                let worktop = worktop.add_resource(*resource, bound)?;
                append_withdraw(&mut withdraws, *account, AccountWithdraw::Ids(*resource, copy_ids(ids)));
                Ok(StaticResourceMovementsVisitor { worktop, buckets, deposits, withdraws })
            },
            ManifestInstruction::TakeAllFromWorktop { resource, new_bucket } => {
                let (worktop, b) = worktop.take_all(*resource, index);
                let ghost bv = b@;
                buckets.insert(new_bucket.clone(), (*resource, b));
                assert(buckets_view(buckets) =~= s.buckets.insert(new_bucket@, (resource@, bv)));
                Ok(StaticResourceMovementsVisitor { worktop, buckets, deposits, withdraws })
            },
            ManifestInstruction::TakeFromWorktop { resource, amount, new_bucket } => {
                let (worktop, b) = worktop.take_amount(*resource, *amount, index)?;
                let ghost bv = b@;
                buckets.insert(new_bucket.clone(), (*resource, b));
                assert(buckets_view(buckets) =~= s.buckets.insert(new_bucket@, (resource@, bv)));
                Ok(StaticResourceMovementsVisitor { worktop, buckets, deposits, withdraws })
            },
            ManifestInstruction::AssertWorktopContainsAny { resource } => {
                let worktop = worktop.assert_contains(*resource, ResourceAssertion::non_zero_amount(), index)?;
                Ok(StaticResourceMovementsVisitor { worktop, buckets, deposits, withdraws })
            },
            ManifestInstruction::AssertWorktopContainsNonFungibles { resource, ids } => {
                let asn = ResourceAssertion::at_least_non_fungibles(copy_ids(ids));
                let worktop = worktop.assert_contains(*resource, asn, index)?;
                Ok(StaticResourceMovementsVisitor { worktop, buckets, deposits, withdraws })
            },
            ManifestInstruction::AssertWorktopContains { resource, amount } => {
                let asn = ResourceAssertion::at_least_amount(*amount);
                let worktop = worktop.assert_contains(*resource, asn, index)?;
                Ok(StaticResourceMovementsVisitor { worktop, buckets, deposits, withdraws })
            },
            ManifestInstruction::AssertWorktopIsEmpty => {
                if worktop.possibly_empty() {
                    let worktop = ResourceBounds::new_empty();
                    Ok(StaticResourceMovementsVisitor { worktop, buckets, deposits, withdraws })
                } else {
                    Err(StaticResourceMovementsError::AssertionCannotBeSatisfied)
                }
            },
            ManifestInstruction::ReturnToWorktop { bucket } => {
                match buckets.remove(bucket) {
                    Some((r, b)) => {
                        assert(buckets_view(buckets) =~= s.buckets.remove(bucket@));
                        let worktop = worktop.add_resource(r, b)?;
                        Ok(StaticResourceMovementsVisitor { worktop, buckets, deposits, withdraws })
                    },
                    None => Err(StaticResourceMovementsError::BucketNotFound),
                }
            },
            ManifestInstruction::DepositBuckets { account, buckets: names } => {
                let gathered = gather(&mut buckets, names)?;
                append_deposit(&mut deposits, *account, AccountDeposit(gathered));
                Ok(StaticResourceMovementsVisitor { worktop, buckets, deposits, withdraws })
            },
            ManifestInstruction::Deposit { account, bucket } => {
                match buckets.remove(bucket) {
                    Some((r, b)) => {
                        assert(buckets_view(buckets) =~= s.buckets.remove(bucket@));
                        let mut d = ResourceBounds::new_empty();
                        d.set_bound(r, b);
                        append_deposit(&mut deposits, *account, AccountDeposit(d));
                        Ok(StaticResourceMovementsVisitor { worktop, buckets, deposits, withdraws })
                    },
                    None => Err(StaticResourceMovementsError::BucketNotFound),
                }
            },
            ManifestInstruction::DepositBatch { account, expression: _ } => {
                append_deposit(&mut deposits, *account, AccountDeposit(worktop));
                let worktop = ResourceBounds::new_empty();
                Ok(StaticResourceMovementsVisitor { worktop, buckets, deposits, withdraws })
            },
            ManifestInstruction::CallMethod { address: _, method_name: _ } => {
                let worktop = worktop.add_unknown_output(invocation);
                Ok(StaticResourceMovementsVisitor { worktop, buckets, deposits, withdraws })
            },
            ManifestInstruction::YieldToParent => {
                Ok(StaticResourceMovementsVisitor { worktop, buckets, deposits, withdraws })
            },
        }
    }

    /// Runs the analysis over the instructions of `manifest`, in order.  It fails with the error
    /// of the first instruction whose movements cannot be worked out.
    pub fn apply(&mut self, manifest: &Manifest) -> (r: Result<(), StaticResourceMovementsError>)
        requires
            old(self).wf(),
        ensures
            final(self).wf(),
            match visit_all(old(self)@, instructions_view(manifest.instructions@)) {
                Ok(v) => r is Ok && final(self)@ == v,
                Err(e) => r == Err::<(), StaticResourceMovementsError>(e),
            },
    {
        let ghost ins = instructions_view(manifest.instructions@);
        let ghost start = self@;
        let n = manifest.instructions.len();
        let mut i: usize = 0;
        assert(ins.take(0) =~= Seq::<InstructionView>::empty());
        while i < n
            invariant
                n == manifest.instructions@.len(),
                ins == instructions_view(manifest.instructions@),
                start == old(self)@,
                i <= n,
                self.wf(),
                visit_all(start, ins.take(i as int)) == Ok::<VisitorView, StaticResourceMovementsError>(self@),
            decreases n - i,
        {
            proof {
                assert(ins.take(i + 1).drop_last() =~= ins.take(i as int));
                assert(ins.take(i + 1).last() == manifest.instructions@[i as int]@);
            }
            let mut current = StaticResourceMovementsVisitor::new(false);
            std::mem::swap(&mut current, self);
            match current.visit(&manifest.instructions[i], i) {
                Ok(next) => {
                    *self = next;
                },
                Err(e) => {
                    proof {
                        lemma_visit_all_stays_failed(start, ins, i + 1, n as int, e);
                        assert(ins.take(n as int) =~= ins);
                    }
                    return Err(e);
                },
            }
            i = i + 1;
        }
        assert(ins.take(n as int) =~= ins);
        Ok(())
    }

    /// What the analysis found: the deposits into and withdrawals from each account.
    pub fn output(self) -> (r: StaticResourceMovementsOutput)
        requires
            self.wf(),
        ensures
            r.wf(),
            r.deposits_of() == self@.deposits,
            r.withdraws_of() == self@.withdraws,
    {
        StaticResourceMovementsOutput { deposits: self.deposits, withdraws: self.withdraws }
    }
}

/// The deposits into and withdrawals from each account that a manifest makes, in order.
pub struct StaticResourceMovementsOutput {
    deposits: AssocMap<ComponentAddress, Vec<AccountDeposit>>,
    withdraws: AssocMap<ComponentAddress, Vec<AccountWithdraw>>,
}

impl StaticResourceMovementsOutput {
    /// No account is listed twice.
    pub closed spec fn wf(&self) -> bool {
        self.deposits.wf() && self.withdraws.wf()
    }

    /// The deposits into each account, in order, as mathematical values.
    pub closed spec fn deposits_of(&self) -> Map<Seq<u8>, Seq<BoundsView>> {
        deposits_view(self.deposits)
    }

    /// The withdrawals from each account, in order, as mathematical values.
    pub closed spec fn withdraws_of(&self) -> Map<Seq<u8>, Seq<WithdrawView>> {
        withdraws_view(self.withdraws)
    }

    /// The deposits into each account, in order.
    pub fn account_deposits(&self) -> (r: &AssocMap<ComponentAddress, Vec<AccountDeposit>>)
        ensures
            self.wf() ==> r.wf(),
            deposits_view(*r) == self.deposits_of(),
    {
        &self.deposits
    }

    /// The withdrawals from each account, in order.
    pub fn account_withdraws(&self) -> (r: &AssocMap<ComponentAddress, Vec<AccountWithdraw>>)
        ensures
            self.wf() ==> r.wf(),
            withdraws_view(*r) == self.withdraws_of(),
    {
        &self.withdraws
    }
}

/// Whether an amount, counted in attos, lies in the range of decimals.
pub open spec fn amount_in_range(a: AmountView) -> bool {
    in_decimal_range(as_amount(a).0)
}

/// An invocation whose output is unknown changes the bound of each named resource on the
/// worktop exactly as adding "any amount, possibly none" from that invocation would.
pub proof fn lemma_unknown_output_is_adding_any_amount(w: BoundsView, r: Seq<u8>, source: ChangeSource)
    requires
        w.specified.contains_key(r),
        amount_in_range(w.specified[r].amount),
    ensures
        combine_bounds(w.specified[r], zero_or_more_bound(seq![source]))
            == Ok::<BoundView, StaticResourceMovementsError>(unknown_output_spec(w, source).specified[r]),
{
    let b = w.specified[r];
    let z = zero_or_more_bound(seq![source]);
    assert(b.history + z.history =~= b.history.push(ChangeView::Add(zero_or_more_amount(), seq![source])));
}

/// Taking exactly `t` out of an exactly known amount `x` of a resource on the worktop succeeds
/// when `t` is at most `x`, and then leaves exactly `x - t` on the worktop and puts exactly `t`
/// in the bucket; when `t` is more than `x` it cannot be satisfied.
pub proof fn lemma_take_splits_exact_amount(w: BoundsView, r: Seq<u8>, x: int, non_zero: bool, t: int, i: usize)
    requires
        w.specified.contains_key(r),
        w.specified[r].amount == (AmountView::Amount { amount: x, exact: true, non_zero }),
        0 <= t,
    ensures
        t <= x ==> (take_amount_spec(w, r, t, i) matches Ok((left, bucket))
            && left.specified[r].amount == (AmountView::Amount { amount: x - t, exact: true, non_zero: x - t > 0 })
            && bucket.amount == (AmountView::Amount { amount: t, exact: true, non_zero: t > 0 })),
        t > x ==> take_amount_spec(w, r, t, i)
            == Err::<(BoundsView, BoundView), StaticResourceMovementsError>(StaticResourceMovementsError::TakeCannotBeSatisfied),
{
}

impl ResourceBounds {
    /// Whether these bounds may hold nothing: no named resource is surely present.
    fn possibly_empty(&self) -> (r: bool)
        requires
            self.wf(),
        ensures
            r == possibly_empty(self@),
    {
        let ghost entries = self.specified.entry_seq();
        proof { self.specified.lemma_view(); }
        let n = self.specified.entry_count();
        let mut i: usize = 0;
        while i < n
            invariant
                n == entries.len(),
                entries == self.specified.entry_seq(),
                self.specified@ == seq_to_map(entries),
                keys_distinct(entries),
                i <= n,
                forall|j: int| 0 <= j < i ==> possibly_zero((#[trigger] entries[j]).1@.amount),
            decreases n - i,
        {
            let e = self.specified.entry_at(i);
            if !e.1.amount.possibly_zero() {
                proof {
                    lemma_seq_to_map_value(entries, i as int);
                    assert(self@.specified.contains_key(entries[i as int].0@));
                }
                return false;
            }
            i = i + 1;
        }
        proof {
            assert forall|k: Seq<u8>| #[trigger] self@.specified.contains_key(k) implies possibly_zero(
                self@.specified[k].amount,
            ) by {
                lemma_seq_to_map_dom(entries, k);
                let j = choose|j: int| 0 <= j < entries.len() && #[trigger] entries[j].0@ == k;
                lemma_seq_to_map_value(entries, j);
                assert(possibly_zero(entries[j].1@.amount));
            }
        }
        true
    }
}

/// Once gathering has failed on a prefix of the names, it fails on every longer prefix, with the
/// same error.
proof fn lemma_gather_stays_failed(
    buckets: Map<Seq<char>, (Seq<u8>, BoundView)>,
    names: Seq<Seq<char>>,
    k: int,
    m: int,
    e: StaticResourceMovementsError,
)
    requires
        0 <= k <= m <= names.len(),
        gather_buckets(buckets, names.take(k)) == Err::<(Map<Seq<char>, (Seq<u8>, BoundView)>, BoundsView), StaticResourceMovementsError>(e),
    ensures
        gather_buckets(buckets, names.take(m)) == Err::<(Map<Seq<char>, (Seq<u8>, BoundView)>, BoundsView), StaticResourceMovementsError>(e),
    decreases m - k,
{
    if m > k {
        lemma_gather_stays_failed(buckets, names, k, m - 1, e);
        assert(names.take(m).drop_last() =~= names.take(m - 1));
    }
}

/// Takes the buckets named `names` out of `buckets`, in order, and gathers their resources
/// into one set of bounds.
fn gather(buckets: &mut AssocMap<String, (ResourceAddress, ResourceBound)>, names: &Vec<ManifestBucket>) -> (r: Result<ResourceBounds, StaticResourceMovementsError>)
    requires
        old(buckets).wf(),
    ensures
        final(buckets).wf(),
        match gather_buckets(buckets_view(*old(buckets)), bucket_names(names@)) {
            Ok((left, gathered)) => r matches Ok(g) && g.wf() && g@ == gathered && buckets_view(*final(buckets)) == left,
            Err(e) => r == Err::<ResourceBounds, StaticResourceMovementsError>(e),
        },
{
    let ghost start = buckets_view(*buckets);
    let ghost all = bucket_names(names@);
    let mut gathered = ResourceBounds::new_empty();
    let n = names.len();
    let mut i: usize = 0;
    assert(all.take(0) =~= Seq::<Seq<char>>::empty());
    while i < n
        invariant
            n == names@.len(),
            all == bucket_names(names@),
            start == buckets_view(*old(buckets)),
            i <= n,
            buckets.wf(),
            gathered.wf(),
            gather_buckets(start, all.take(i as int)) == Ok::<(Map<Seq<char>, (Seq<u8>, BoundView)>, BoundsView), StaticResourceMovementsError>((buckets_view(*buckets), gathered@)),
        decreases n - i,
    {
        proof {
            assert(all.take(i + 1).drop_last() =~= all.take(i as int));
            assert(all.take(i + 1).last() == names@[i as int].name@);
        }
        let ghost before = buckets_view(*buckets);
        match buckets.remove(&names[i].name) {
            Some((resource, bound)) => {
                assert(buckets_view(*buckets) =~= before.remove(names@[i as int].name@));
                match gathered.add_resource(resource, bound) {
                    Ok(g) => {
                        gathered = g;
                    },
                    Err(e) => {
                        proof {
                            lemma_gather_stays_failed(start, all, i + 1, n as int, e);
                            assert(all.take(n as int) =~= all);
                        }
                        return Err(e);
                    },
                }
            },
            None => {
                proof {
                    lemma_gather_stays_failed(start, all, i + 1, n as int, StaticResourceMovementsError::BucketNotFound);
                    assert(all.take(n as int) =~= all);
                }
                return Err(StaticResourceMovementsError::BucketNotFound);
            },
        }
        i = i + 1;
    }
    assert(all.take(n as int) =~= all);
    Ok(gathered)
}

/// The withdrawals that the instructions `ins` make, per account, in order: one for each
/// withdrawal of an amount or of non-fungibles.
pub open spec fn withdrawals_of(ins: Seq<InstructionView>) -> Map<Seq<u8>, Seq<WithdrawView>>
    decreases ins.len(),
{
    if ins.len() == 0 {
        Map::empty()
    } else {
        let before = withdrawals_of(ins.drop_last());
        match ins.last() {
            InstructionView::LockFeeAndWithdraw { account, fee: _, resource, amount } =>
                append_to(before, account, WithdrawView::Amount(resource, amount)),
            InstructionView::LockFeeAndWithdrawNonFungibles { account, fee: _, resource, ids } =>
                append_to(before, account, WithdrawView::Ids(resource, ids)),
            _ => before,
        }
    }
}

/// The withdrawals that the analysis of a manifest reports, when it succeeds, are exactly the
/// withdrawals that its instructions make, per account and in order; nothing else adds to them.
pub proof fn lemma_reported_withdrawals_are_the_manifests(is_subintent: bool, ins: Seq<InstructionView>)
    ensures
        visit_all(initial_view(is_subintent), ins) matches Ok(v) ==> v.withdraws == withdrawals_of(ins),
    decreases ins.len(),
{
    if ins.len() > 0 {
        lemma_reported_withdrawals_are_the_manifests(is_subintent, ins.drop_last());
    }
}

/// An id is in the union of two id lists exactly when it is in one of them.
pub proof fn lemma_ids_union_contains(b: Seq<LocalIdView>, extra: Seq<LocalIdView>, id: LocalIdView)
    ensures
        ids_union(b, extra).contains(id) <==> (b.contains(id) || extra.contains(id)),
    decreases extra.len(),
{
    if extra.len() > 0 {
        lemma_ids_union_contains(b, extra.drop_last(), id);
        let u = ids_union(b, extra.drop_last());
        if extra.drop_last().contains(id) {
            let j = choose|j: int| 0 <= j < extra.drop_last().len() && extra.drop_last()[j] == id;
            assert(extra[j] == id);
        }
        if extra.contains(id) && !extra.drop_last().contains(id) {
            let j = choose|j: int| 0 <= j < extra.len() && extra[j] == id;
            if j < extra.len() - 1 {
                assert(extra.drop_last()[j] == id);
            }
            assert(id == extra.last());
        }
        if !u.contains(extra.last()) {
            assert(u.push(extra.last())[u.len() as int] == extra.last());
            if u.push(extra.last()).contains(id) {
                let j = choose|j: int| 0 <= j < u.len() + 1 && u.push(extra.last())[j] == id;
                if j < u.len() {
                    assert(u[j] == id);
                }
            }
            if u.contains(id) {
                let j = choose|j: int| 0 <= j < u.len() && u[j] == id;
                assert(u.push(extra.last())[j] == id);
            }
        }
    }
}

/// Adding two sets of non-fungibles gives the set of non-fungibles that holds every id of
/// either and no other, and it is exact only when both are.
pub proof fn lemma_adding_non_fungibles_unites_their_ids(
    a: Seq<LocalIdView>,
    exact_a: bool,
    b: Seq<LocalIdView>,
    exact_b: bool,
)
    ensures
        add_amounts(AmountView::NonFungibles { ids: a, exact: exact_a }, AmountView::NonFungibles { ids: b, exact: exact_b })
            matches Ok(AmountView::NonFungibles { ids, exact })
            && exact == (exact_a && exact_b)
            && forall|id: LocalIdView| #[trigger] ids.contains(id) <==> (a.contains(id) || b.contains(id)),
{
    assert forall|id: LocalIdView| #[trigger] ids_union(a, b).contains(id) <==> (a.contains(id) || b.contains(id)) by {
        lemma_ids_union_contains(a, b, id);
    }
}

/// Adding two amounts gives their sum when it is a decimal, exact only when both are, and
/// known to be non-zero when either is or the sum is positive; a sum out of range is refused.
pub proof fn lemma_adding_amounts_sums_them(
    x: int, exact_x: bool, non_zero_x: bool,
    y: int, exact_y: bool, non_zero_y: bool,
)
    ensures
        i128::MIN <= x + y <= i128::MAX ==> add_amounts(
            AmountView::Amount { amount: x, exact: exact_x, non_zero: non_zero_x },
            AmountView::Amount { amount: y, exact: exact_y, non_zero: non_zero_y },
        ) == Ok::<AmountView, StaticResourceMovementsError>(AmountView::Amount {
            amount: x + y,
            exact: exact_x && exact_y,
            non_zero: non_zero_x || non_zero_y || x + y > 0,
        }),
        !(i128::MIN <= x + y <= i128::MAX) ==> add_amounts(
            AmountView::Amount { amount: x, exact: exact_x, non_zero: non_zero_x },
            AmountView::Amount { amount: y, exact: exact_y, non_zero: non_zero_y },
        ) == Err::<AmountView, StaticResourceMovementsError>(StaticResourceMovementsError::DecimalOverflow),
{
}

/// Adding "any amount, possibly none" to a set of non-fungibles keeps its ids, as a lower
/// bound only, whichever side it is on.
pub proof fn lemma_adding_an_unknown_amount_keeps_the_ids(ids: Seq<LocalIdView>, exact: bool)
    ensures
        add_amounts(AmountView::Amount { amount: 0, exact: false, non_zero: false }, AmountView::NonFungibles { ids, exact })
            == Ok::<AmountView, StaticResourceMovementsError>(AmountView::NonFungibles { ids, exact: false }),
        add_amounts(AmountView::NonFungibles { ids, exact }, AmountView::Amount { amount: 0, exact: false, non_zero: false })
            == Ok::<AmountView, StaticResourceMovementsError>(AmountView::NonFungibles { ids, exact: false }),
{
}

/// A bound of exactly some non-fungibles holds each of the given ids and no other, exactly.
pub proof fn lemma_non_fungibles_bound_holds_the_ids(ids: Seq<LocalIdView>, sources: Seq<ChangeSource>)
    ensures
        non_fungibles_bound(ids, sources).amount matches AmountView::NonFungibles { ids: held, exact }
            && exact
            && forall|id: LocalIdView| #[trigger] held.contains(id) <==> ids.contains(id),
{
    assert forall|id: LocalIdView| #[trigger] ids_union(Seq::empty(), ids).contains(id) <==> ids.contains(id) by {
        lemma_ids_union_contains(Seq::empty(), ids, id);
    }
}

/// Asserting that some non-fungibles are present: where it is accepted, what is then known
/// holds every required id and every id known before.
pub proof fn lemma_asserted_non_fungibles_are_held(a: AmountView, required: Seq<LocalIdView>)
    ensures
        assert_non_fungibles(a, required) matches Ok(AmountView::NonFungibles { ids: held, exact: _ }) ==>
            (forall|id: LocalIdView| #[trigger] held.contains(id) <== required.contains(id)
                || (a matches AmountView::NonFungibles { ids, exact: _ } && ids.contains(id))),
        assert_non_fungibles(a, required) is Ok ==> assert_non_fungibles(a, required) matches Ok(AmountView::NonFungibles { .. }),
        a matches AmountView::NonFungibles { ids, exact } && exact && !(forall|id: LocalIdView| required.contains(id) ==> #[trigger] ids.contains(id))
            ==> assert_non_fungibles(a, required) == Err::<AmountView, StaticResourceMovementsError>(StaticResourceMovementsError::AssertionCannotBeSatisfied),
{
    assert forall|id: LocalIdView, b: Seq<LocalIdView>| #[trigger] ids_union(b, required).contains(id) <==> (b.contains(id) || required.contains(id)) by {
        lemma_ids_union_contains(b, required, id);
    }
    if let AmountView::NonFungibles { ids, exact: true } = a {
        if ids_include(ids, required) {
            assert forall|id: LocalIdView| required.contains(id) implies #[trigger] ids.contains(id) by {
                let j = choose|j: int| 0 <= j < required.len() && required[j] == id;
                assert(ids.contains(required[j]));
            }
        } else {
            let j = choose|j: int| 0 <= j < required.len() && !ids.contains(#[trigger] required[j]);
            assert(required.contains(required[j]));
        }
    }
}

/// Taking an exact amount out of a bound: a negative amount is refused; where enough is known
/// to be there, what is left is the rest, as exact as before; where it is known exactly and not
/// enough is there, the take is refused; otherwise nothing more is known of what is left.
pub proof fn lemma_take_leaves_the_rest(a: AmountView, t: int)
    ensures
        t < 0 ==> take_from_amount(a, t) == Err::<AmountView, StaticResourceMovementsError>(StaticResourceMovementsError::NegativeAmount),
        0 <= t <= as_amount(a).0 ==> take_from_amount(a, t) == Ok::<AmountView, StaticResourceMovementsError>(
            AmountView::Amount { amount: as_amount(a).0 - t, exact: as_amount(a).1, non_zero: as_amount(a).0 - t > 0 }),
        0 <= t && as_amount(a).0 < t && as_amount(a).1 ==>
            take_from_amount(a, t) == Err::<AmountView, StaticResourceMovementsError>(StaticResourceMovementsError::TakeCannotBeSatisfied),
        0 <= t && as_amount(a).0 < t && !as_amount(a).1 ==>
            take_from_amount(a, t) == Ok::<AmountView, StaticResourceMovementsError>(AmountView::Amount { amount: 0, exact: false, non_zero: false }),
        a matches AmountView::NonFungibles { ids, exact: _ } ==> as_amount(a).0 == ids.len() * ATTOS_PER_UNIT,
{
}

/// Asserting at least an amount: where accepted, what is then known is an amount of at least
/// it (or non-fungibles that count for at least it); a negative amount is refused, and so is
/// an exact amount below it.
pub proof fn lemma_asserted_minimum_is_met(a: AmountView, t: int)
    ensures
        t < 0 ==> assert_at_least(a, t) == Err::<AmountView, StaticResourceMovementsError>(StaticResourceMovementsError::NegativeAmount),
        assert_at_least(a, t) matches Ok(r) ==> as_amount(r).0 >= t && as_amount(r).0 >= as_amount(a).0
            && (as_amount(r).1 ==> as_amount(a).1),
        0 <= t && as_amount(a).1 && as_amount(a).0 < t ==>
            assert_at_least(a, t) == Err::<AmountView, StaticResourceMovementsError>(StaticResourceMovementsError::AssertionCannotBeSatisfied),
{
}

/// A non-fungible withdrawal puts the withdrawn non-fungibles on the worktop: where the worktop
/// held a set of non-fungibles of that resource (or nothing of it), it then holds a set with
/// every id it held and every id withdrawn, and no other; and the withdrawal is recorded, last,
/// for the account.
pub proof fn lemma_withdrawn_non_fungibles_land_on_the_worktop(
    s: VisitorView,
    account: Seq<u8>,
    fee: int,
    resource: Seq<u8>,
    ids: Seq<LocalIdView>,
    i: usize,
)
    requires
        s.worktop.specified.contains_key(resource) ==> s.worktop.specified[resource].amount is NonFungibles,
    ensures
        ({
            let r = visit_step(s, InstructionView::LockFeeAndWithdrawNonFungibles { account, fee, resource, ids }, i);
            &&& r is Ok
            &&& r->Ok_0.worktop.specified.contains_key(resource)
            &&& r->Ok_0.worktop.specified[resource].amount is NonFungibles
            &&& forall|id: LocalIdView| #[trigger] r->Ok_0.worktop.specified[resource].amount->ids.contains(id)
                <==> (ids.contains(id) || (s.worktop.specified.contains_key(resource)
                    && s.worktop.specified[resource].amount->ids.contains(id)))
            &&& r->Ok_0.withdraws.contains_key(account)
            &&& r->Ok_0.withdraws[account].last() == WithdrawView::Ids(resource, ids)
        }),
{
    let invocation = ChangeSource::Invocation { instruction_index: i };
    lemma_non_fungibles_bound_holds_the_ids(ids, seq![invocation]);
    let nids = ids_union(Seq::<LocalIdView>::empty(), ids);
    match base_bound(s.worktop, resource) {
        Some(b) => {
            if s.worktop.specified.contains_key(resource) {
                let a = b.amount->ids;
                lemma_adding_non_fungibles_unites_their_ids(a, b.amount->NonFungibles_exact, nids, true);
            } else {
                lemma_adding_an_unknown_amount_keeps_the_ids(nids, true);
            }
        },
        None => {},
    }
}

/// Depositing the entire worktop records, last among the account's deposits, exactly what the
/// worktop held, leaves the worktop empty, and touches no other account's deposits.
pub proof fn lemma_deposit_entire_worktop_takes_all_of_it(s: VisitorView, account: Seq<u8>, other: Seq<u8>, i: usize)
    ensures
        visit_step(s, InstructionView::DepositEntireWorktop { account }, i) matches Ok(t)
            && t.deposits.contains_key(account)
            && t.deposits[account].last() == s.worktop
            && t.deposits[account].drop_last() == (if s.deposits.contains_key(account) { s.deposits[account] } else { Seq::empty() })
            && t.worktop == empty_bounds()
            && (other != account ==> t.deposits.contains_key(other) == s.deposits.contains_key(other)
                && (s.deposits.contains_key(other) ==> t.deposits[other] == s.deposits[other])),
{
    if s.deposits.contains_key(account) {
        assert(s.deposits[account].push(s.worktop).drop_last() =~= s.deposits[account]);
    } else {
        assert(seq![s.worktop].drop_last() =~= Seq::<BoundsView>::empty());
    }
}
} // verus!
