use vstd::arithmetic::power::lemma_pow0;
use vstd::arithmetic::power::lemma_pow_adds;
use vstd::arithmetic::power::lemma_pow_increases;
use vstd::arithmetic::power::pow;
use vstd::prelude::*;

pub mod laws;

use laws::lemma_powers_of_ten;
use laws::lemma_scaled_nonnegative;

verus! {

/// The kind of effect that an attribute has.
#[derive(Clone, Copy, Debug, PartialEq, Eq, Structural)]
pub enum Modifier {
    IncreaseTokenAmount,
    IncreaseItemDropRate,
    ReduceMissionDuration,
    EquipmentSlot,
    UnlockExpertMission,
    RechargeDurability,
    Unknown,
}

impl Default for Modifier {
    fn default() -> (r: Self)
        ensures
            r == Modifier::Unknown,
    {
        Modifier::Unknown
    }
}

/// A fixed-point magnitude of one kind: it stands for `value` divided by
/// ten to the power `decimals`.
#[derive(Clone, Copy, Debug, PartialEq, Eq, Structural)]
pub struct Attribute {
    pub modifier: Modifier,
    pub value: u32,
    pub decimals: u32,
}

/// The attribute that a sum starts from: nothing, of no kind.
pub open spec fn zero() -> Attribute {
    Attribute { modifier: Modifier::Unknown, value: 0, decimals: 0 }
}

impl Default for Attribute {
    fn default() -> (r: Self)
        ensures
            r == zero(),
    {
        Attribute { modifier: Modifier::Unknown, value: 0, decimals: 0 }
    }
}

/// `value` written with `steps` more decimals.
pub open spec fn scaled(value: u32, steps: nat) -> int {
    value * pow(10, steps)
}

/// A magnitude as a `u32` holds it: exact up to `u32::MAX`, and `u32::MAX`
/// beyond.
pub open spec fn saturated(exact: int) -> u32 {
    if exact > u32::MAX {
        u32::MAX
    } else {
        exact as u32
    }
}

/// `value` written with `steps` more decimals, as a `u32` holds it.
pub open spec fn rescaled(value: u32, steps: nat) -> u32 {
    saturated(scaled(value, steps))
}

/// The precision of a sum: the finer of the two.
pub open spec fn merged_decimals(a: Attribute, b: Attribute) -> u32 {
    if a.decimals >= b.decimals {
        a.decimals
    } else {
        b.decimals
    }
}

/// The magnitude of a sum before it is stored: both operands at the
/// precision of the sum, added.
pub open spec fn exact_sum(a: Attribute, b: Attribute) -> int {
    let decimals = merged_decimals(a, b);
    scaled(a.value, (decimals - a.decimals) as nat) + scaled(
        b.value,
        (decimals - b.decimals) as nat,
    )
}

/// The sum of two attributes. The kind is that of the right operand.
pub open spec fn merged(a: Attribute, b: Attribute) -> Attribute {
    Attribute {
        modifier: b.modifier,
        value: saturated(exact_sum(a, b)),
        decimals: merged_decimals(a, b),
    }
}

/// The sum of a sequence of attributes, from the left, starting from
/// [`zero`].
pub open spec fn folded(attributes: Seq<Attribute>) -> Attribute {
    attributes.fold_left(zero(), |acc: Attribute, x: Attribute| merged(acc, x))
}

proof fn lemma_pow10_of_ten_exceeds_u32(steps: nat)
    requires
        steps >= 10,
    ensures
        pow(10, steps) > u32::MAX,
{
    lemma_powers_of_ten();
    lemma_pow_increases(10, 10, steps);
}

/// `value` with `steps` more decimals, held at `u32::MAX` where it would
/// not fit.
pub fn rescale(value: u32, steps: u32) -> (r: u32)
    ensures
        r == rescaled(value, steps as nat),
{
    if value == 0 {
        assert(scaled(value, steps as nat) == 0) by (nonlinear_arith)
            requires
                value == 0,
        ;
        return 0;
    }
    if steps >= 10 {
        proof {
            lemma_pow10_of_ten_exceeds_u32(steps as nat);
            assert(scaled(value, steps as nat) > u32::MAX) by (nonlinear_arith)
                requires
                    value >= 1,
                    pow(10, steps as nat) > u32::MAX,
                    scaled(value, steps as nat) == value * pow(10, steps as nat),
            ;
        }
        return u32::MAX;
    }
    let mut factor: u64 = 1;
    let mut done: u32 = 0;
    proof {
        lemma_pow0(10);
    }
    while done < steps
        invariant
            done <= steps < 10,
            factor == pow(10, done as nat),
            1 <= factor <= 1_000_000_000,
        decreases steps - done,
    {
        proof {
            lemma_powers_of_ten();
            lemma_pow_adds(10, done as nat, 1);
            lemma_pow_increases(10, (done + 1) as nat, 9);
        }
        factor = factor * 10;
        done = done + 1;
    }
    assert(value * factor <= 0xffff_ffff * 1_000_000_000) by (nonlinear_arith)
        requires
            value <= 0xffff_ffff,
            1 <= factor <= 1_000_000_000,
    ;
    let wide: u64 = value as u64 * factor;
    if wide > u32::MAX as u64 {
        u32::MAX
    } else {
        wide as u32
    }
}

impl std::ops::Add<Attribute> for Attribute {
    type Output = Attribute;

    /// Adds two attributes at the finer of their two precisions. The
    /// magnitude is exact while it fits and stays at `u32::MAX` beyond; the
    /// kind is that of `rhs`.
    fn add(self, rhs: Attribute) -> (r: Attribute)
        ensures
            r == merged(self, rhs),
    {
        let decimals: u32 = if self.decimals >= rhs.decimals {
            self.decimals
        } else {
            rhs.decimals
        };
        let left: u32 = rescale(self.value, decimals - self.decimals);
        let right: u32 = rescale(rhs.value, decimals - rhs.decimals);
        proof {
            lemma_scaled_nonnegative(self.value, (decimals - self.decimals) as nat);
            lemma_scaled_nonnegative(rhs.value, (decimals - rhs.decimals) as nat);
        }
        Attribute { modifier: rhs.modifier, value: left.saturating_add(right), decimals }
    }
}

impl vstd::std_specs::ops::AddSpecImpl<Attribute> for Attribute {
    open spec fn obeys_add_spec() -> bool {
        true
    }

    open spec fn add_req(self, rhs: Attribute) -> bool {
        true
    }

    open spec fn add_spec(self, rhs: Attribute) -> Attribute {
        merged(self, rhs)
    }
}

} // verus!
