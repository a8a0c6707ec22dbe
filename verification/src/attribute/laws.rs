use vstd::arithmetic::power::lemma_pow0;
use vstd::arithmetic::power::lemma_pow_adds;
use vstd::arithmetic::power::lemma_pow_positive;
use vstd::arithmetic::power::pow;
use vstd::prelude::*;
use vstd::seq_lib::commutative_foldl;
use vstd::seq_lib::lemma_fold_left_permutation;
use vstd::seq_lib::to_multiset_contains;

use crate::attribute::exact_sum;
use crate::attribute::folded;
use crate::attribute::merged;
use crate::attribute::merged_decimals;
use crate::attribute::rescaled;
use crate::attribute::saturated;
use crate::attribute::scaled;
use crate::attribute::zero;
use crate::attribute::Attribute;
use crate::attribute::Modifier;

verus! {

/// Of two attributes of different precision, the one with fewer decimals.
pub open spec fn coarser(a: Attribute, b: Attribute) -> Attribute {
    if a.decimals < b.decimals {
        a
    } else {
        b
    }
}

/// Of two attributes of different precision, the one with more decimals.
pub open spec fn finer(a: Attribute, b: Attribute) -> Attribute {
    if a.decimals < b.decimals {
        b
    } else {
        a
    }
}

/// The powers of ten up to the first that a `u32` cannot hold.
pub proof fn lemma_powers_of_ten()
    ensures
        pow(10, 0) == 1,
        pow(10, 1) == 10,
        pow(10, 2) == 100,
        pow(10, 3) == 1_000,
        pow(10, 4) == 10_000,
        pow(10, 5) == 100_000,
        pow(10, 6) == 1_000_000,
        pow(10, 7) == 10_000_000,
        pow(10, 8) == 100_000_000,
        pow(10, 9) == 1_000_000_000,
        pow(10, 10) == 10_000_000_000,
{
    reveal_with_fuel(pow, 11);
}

/// A scaled magnitude is never negative.
pub proof fn lemma_scaled_nonnegative(value: u32, steps: nat)
    ensures
        scaled(value, steps) >= 0,
        scaled(value, 0) == value,
{
    lemma_pow_positive(10, steps);
    lemma_pow0(10);
    assert(value * pow(10, steps) >= 0) by (nonlinear_arith)
        requires
            value >= 0,
            pow(10, steps) > 0,
    ;
}

/// Addition is commutative in the magnitude and in the precision of the
/// sum, but not in its kind: the sum has the kind of the right operand.
pub proof fn lemma_add_commutes_in_value(a: Attribute, b: Attribute)
    ensures
        merged(a, b).value == merged(b, a).value,
        merged(a, b).decimals == merged(b, a).decimals,
        merged(a, b).modifier == b.modifier,
        merged(b, a).modifier == a.modifier,
{
}

/// Where two attributes differ in precision, their sum has the finer
/// precision, and the coarser operand enters it multiplied by ten to the
/// power of the difference. This holds as long as that product fits a
/// `u32`.
pub proof fn lemma_add_rescales_coarser_operand(a: Attribute, b: Attribute)
    requires
        a.decimals != b.decimals,
        coarser(a, b).value * pow(10, (finer(a, b).decimals - coarser(a, b).decimals) as nat)
            <= u32::MAX,
    ensures
        merged(a, b).decimals == finer(a, b).decimals,
        merged(a, b).decimals >= a.decimals,
        merged(a, b).decimals >= b.decimals,
        rescaled(coarser(a, b).value, (finer(a, b).decimals - coarser(a, b).decimals) as nat)
            == coarser(a, b).value * pow(
            10,
            (finer(a, b).decimals - coarser(a, b).decimals) as nat,
        ),
        merged(a, b).value == saturated(
            coarser(a, b).value * pow(
                10,
                (finer(a, b).decimals - coarser(a, b).decimals) as nat,
            ) + finer(a, b).value,
        ),
{
    lemma_scaled_nonnegative(
        coarser(a, b).value,
        (finer(a, b).decimals - coarser(a, b).decimals) as nat,
    );
    lemma_scaled_nonnegative(finer(a, b).value, 0);
}

/// The sum of a sequence with one more attribute is the sum of the sequence
/// plus that attribute.
pub proof fn lemma_folded_push(attributes: Seq<Attribute>, next: Attribute)
    ensures
        folded(attributes.push(next)) == merged(folded(attributes), next),
{
    assert(attributes.push(next).drop_last() =~= attributes);
}

/// The finest precision among three attributes.
pub open spec fn merged_decimals3(v: Attribute, x: Attribute, y: Attribute) -> u32 {
    if merged_decimals(v, x) >= y.decimals {
        merged_decimals(v, x)
    } else {
        y.decimals
    }
}

/// The magnitude of the sum of three attributes before it is stored: all
/// three at the finest of their precisions, added.
pub open spec fn exact_sum3(v: Attribute, x: Attribute, y: Attribute) -> int {
    let decimals = merged_decimals3(v, x, y);
    scaled(v.value, (decimals - v.decimals) as nat) + scaled(
        x.value,
        (decimals - x.decimals) as nat,
    ) + scaled(y.value, (decimals - y.decimals) as nat)
}

/// Addition with the kind of the sum fixed in advance.
pub open spec fn merged_as(kind: Modifier) -> spec_fn(Attribute, Attribute) -> Attribute {
    |acc: Attribute, x: Attribute| Attribute { modifier: kind, ..merged(acc, x) }
}

/// A magnitude that was held at `u32::MAX` and is scaled again, and added
/// to, comes out as if it had been exact all along.
proof fn lemma_saturated_absorbs(exact: int, factor: int, more: int)
    requires
        exact >= 0,
        factor >= 1,
        more >= 0,
    ensures
        saturated(saturated(exact) * factor + more) == saturated(exact * factor + more),
{
    if exact > u32::MAX {
        assert(exact * factor + more > u32::MAX) by (nonlinear_arith)
            requires
                exact > u32::MAX,
                factor >= 1,
                more >= 0,
        ;
        assert(u32::MAX * factor + more >= u32::MAX) by (nonlinear_arith)
            requires
                factor >= 1,
                more >= 0,
        ;
    }
}

/// Scaling in two steps is scaling by both at once.
proof fn lemma_scaled_twice(value: u32, first: nat, second: nat)
    ensures
        scaled(value, first) * pow(10, second) == scaled(value, first + second),
{
    lemma_pow_adds(10, first, second);
    assert(value * pow(10, first) * pow(10, second) == value * (pow(10, first) * pow(10, second)))
        by (nonlinear_arith);
}

/// Adding a third attribute to a sum gives the three magnitudes, each at
/// the finest of the three precisions, added and then stored.
pub proof fn lemma_merged_twice(v: Attribute, x: Attribute, y: Attribute)
    ensures
        merged(merged(v, x), y).value == saturated(exact_sum3(v, x, y)),
        merged(merged(v, x), y).decimals == merged_decimals3(v, x, y),
{
    let inner = merged_decimals(v, x);
    let outer = merged_decimals3(v, x, y);
    let gap = (outer - inner) as nat;
    let sum = exact_sum(v, x);
    let third = scaled(y.value, (outer - y.decimals) as nat);
    lemma_scaled_nonnegative(v.value, (inner - v.decimals) as nat);
    lemma_scaled_nonnegative(x.value, (inner - x.decimals) as nat);
    lemma_scaled_nonnegative(y.value, (outer - y.decimals) as nat);
    lemma_pow_positive(10, gap);
    lemma_saturated_absorbs(sum, pow(10, gap), third);
    lemma_scaled_twice(v.value, (inner - v.decimals) as nat, gap);
    lemma_scaled_twice(x.value, (inner - x.decimals) as nat, gap);
    assert(sum * pow(10, gap) == scaled(v.value, (inner - v.decimals) as nat) * pow(10, gap)
        + scaled(x.value, (inner - x.decimals) as nat) * pow(10, gap)) by (nonlinear_arith)
        requires
            sum == scaled(v.value, (inner - v.decimals) as nat) + scaled(
                x.value,
                (inner - x.decimals) as nat,
            ),
    ;
    assert((inner - v.decimals) as nat + gap == (outer - v.decimals) as nat);
    assert((inner - x.decimals) as nat + gap == (outer - x.decimals) as nat);
}

/// With the kind fixed, the order in which two attributes are added to a
/// sum does not matter.
pub proof fn lemma_merged_as_commutes(kind: Modifier)
    ensures
        commutative_foldl(merged_as(kind)),
{
    assert forall|x: Attribute, y: Attribute, v: Attribute| #[trigger]
        merged_as(kind)(merged_as(kind)(v, x), y) == merged_as(kind)(
            merged_as(kind)(v, y),
            x,
        ) by {
        let left = Attribute { modifier: kind, ..merged(v, x) };
        let right = Attribute { modifier: kind, ..merged(v, y) };
        lemma_merged_twice(v, x, y);
        lemma_merged_twice(v, y, x);
        assert(merged(left, y).value == merged(merged(v, x), y).value);
        assert(merged(right, x).value == merged(merged(v, y), x).value);
    }
}

/// The sum of attributes that are all of one kind is their sum with that
/// kind fixed in advance.
pub proof fn lemma_folded_of_one_kind(attributes: Seq<Attribute>, kind: Modifier)
    requires
        forall|i: int| 0 <= i < attributes.len() ==> (#[trigger] attributes[i]).modifier == kind,
    ensures
        folded(attributes) == attributes.fold_left(zero(), merged_as(kind)),
    decreases attributes.len(),
{
    if attributes.len() > 0 {
        lemma_folded_of_one_kind(attributes.drop_last(), kind);
    }
}

/// The sum of attributes of one kind does not depend on their order.
pub proof fn lemma_folded_is_order_independent(
    first: Seq<Attribute>,
    second: Seq<Attribute>,
    kind: Modifier,
)
    requires
        first.to_multiset() == second.to_multiset(),
        forall|i: int| 0 <= i < first.len() ==> (#[trigger] first[i]).modifier == kind,
    ensures
        folded(first) == folded(second),
{
    assert forall|i: int| 0 <= i < second.len() implies (#[trigger] second[i]).modifier
        == kind by {
        to_multiset_contains(second, second[i]);
        to_multiset_contains(first, second[i]);
        assert(second.contains(second[i]));
        let j = choose|j: int| 0 <= j < first.len() && first[j] == second[i];
        assert(first[j].modifier == kind);
    }
    lemma_folded_of_one_kind(first, kind);
    lemma_folded_of_one_kind(second, kind);
    lemma_merged_as_commutes(kind);
    lemma_fold_left_permutation(first, second, merged_as(kind), zero());
}

} // verus!
