//! Health and damage arithmetic.
//!
//! Health is an unsigned integer: damage subtracts and clamps at zero, a heal
//! adds and saturates only at the machine limit (the design puts no upper
//! clamp on healing).

use vstd::prelude::*;

verus! {

/// Health after taking `amount` damage: subtraction clamped at zero.
pub open spec fn damage_spec(health: int, amount: int) -> int {
    if amount >= health {
        0
    } else {
        health - amount
    }
}

/// Health after a whole sequence of damage amounts, applied in order.
pub open spec fn damage_fold(health: int, amounts: Seq<int>) -> int
    decreases amounts.len(),
{
    if amounts.len() == 0 {
        health
    } else {
        damage_fold(damage_spec(health, amounts[0]), amounts.skip(1))
    }
}

/// Health never goes negative, whatever sequence of damage amounts is
/// applied to it.
pub proof fn lemma_health_never_negative(health: int, amounts: Seq<int>)
    requires
        health >= 0,
    ensures
        damage_fold(health, amounts) >= 0,
    decreases amounts.len(),
{
    if amounts.len() > 0 {
        lemma_health_never_negative(damage_spec(health, amounts[0]), amounts.skip(1));
    }
}

/// Applying damage never raises health: the fold stays between zero and the
/// starting value.
pub proof fn lemma_damage_fold_bounds(health: int, amounts: Seq<int>)
    requires
        health >= 0,
        forall|i: int| 0 <= i < amounts.len() ==> #[trigger] amounts[i] >= 0,
    ensures
        0 <= damage_fold(health, amounts) <= health,
    decreases amounts.len(),
{
    if amounts.len() > 0 {
        assert(forall|i: int| 0 <= i < amounts.skip(1).len() ==> #[trigger] amounts.skip(1)[i]
            >= 0);
        lemma_damage_fold_bounds(damage_spec(health, amounts[0]), amounts.skip(1));
    }
}

/// Applies one damage amount, clamping at zero.
pub fn apply_damage(health: u32, amount: u32) -> (r: u32)
    ensures
        r == damage_spec(health as int, amount as int),
        r <= health,
{
    if amount >= health {
        0
    } else {
        health - amount
    }
}

/// Health after a heal: addition, saturating only at the machine limit.
pub open spec fn heal_spec(health: int, amount: int) -> int {
    if health + amount > u32::MAX {
        u32::MAX as int
    } else {
        health + amount
    }
}

/// Applies one heal amount.
pub fn apply_heal(health: u32, amount: u32) -> (r: u32)
    ensures
        r == heal_spec(health as int, amount as int),
        r >= health,
{
    if amount > u32::MAX - health {
        u32::MAX
    } else {
        health + amount
    }
}

} // verus!
