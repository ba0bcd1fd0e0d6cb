//! The combat resolver: a layered, probabilistic damage distribution.
//!
//! Damage is resolved in three layers. Energy damage burns shield; once the
//! shield is gone, piercing damage eats armour; once both are gone, what is
//! left of the generic damage reaches health. Explosive damage bypasses the
//! two defence layers entirely. A layer that empties mid-resolution lets the
//! remaining generic damage carry through in the same pass.

use vstd::prelude::*;

use crate::unit::Stat;
use crate::weapon::Damage;

verus! {

/// The probability scale: unit accuracy and weapon accuracy are percentages,
/// so their product ranges over `[0, 10000]`.
pub const ACCURACY_SCALE: u32 = 10000;

/// The target's defensive triple.
#[derive(Debug, Default, Copy, Clone, PartialEq, Eq, Structural)]
pub struct Vitals {
    pub health: Stat,
    pub armour: Stat,
    pub shield: Stat,
}

impl Vitals {
    pub open spec fn inv(self) -> bool {
        self.health.inv() && self.armour.inv() && self.shield.inv()
    }
}

/// What one resolution dealt to each layer, and how many rolls landed.
#[derive(Debug, Default, Copy, Clone, PartialEq, Eq, Structural)]
pub struct DamageDealt {
    pub health: u64,
    pub armour: u16,
    pub shield: u16,
    pub hits: u16,
}

/// The layered distribution of already-scaled damage over a target with the
/// given shield and armour values. Returns what is dealt to health, armour
/// and shield, in that order.
pub open spec fn spec_layered(
    base: int,
    pierce: int,
    energy: int,
    explosion: int,
    shield: int,
    armour: int,
) -> (int, int, int) {
    let shield_after_energy = if shield <= energy {
        0
    } else {
        shield - energy
    };
    let dealt_shield = if shield == 0 {
        0
    } else if shield <= energy {
        shield
    } else if shield_after_energy <= base {
        energy + shield_after_energy
    } else {
        energy + base
    };
    let shield_after = if shield == 0 {
        0
    } else if shield_after_energy <= base {
        0
    } else {
        shield_after_energy - base
    };
    let base_after_shield = if shield == 0 {
        base
    } else if shield_after_energy <= base {
        base - shield_after_energy
    } else {
        0
    };
    let armour_after_pierce = if armour <= pierce {
        0
    } else {
        armour - pierce
    };
    let armour_entered = shield_after == 0 && armour != 0;
    let dealt_armour = if !armour_entered {
        0
    } else if armour <= pierce {
        armour
    } else if armour_after_pierce <= base_after_shield {
        pierce + armour_after_pierce
    } else {
        pierce + base_after_shield
    };
    let armour_after = if !armour_entered {
        armour
    } else if armour_after_pierce <= base_after_shield {
        0
    } else {
        armour_after_pierce - base_after_shield
    };
    let base_after_armour = if !armour_entered {
        base_after_shield
    } else if armour_after_pierce <= base_after_shield {
        base_after_shield - armour_after_pierce
    } else {
        0
    };
    let dealt_health = (
    if shield_after == 0 && armour_after == 0 {
        base_after_armour
    } else {
        0
    }) + explosion;
    (dealt_health, dealt_armour, dealt_shield)
}

/// What one resolution at `hits` landed rolls does: nothing at all on zero
/// hits; otherwise each channel is scaled by `hits`, distributed by
/// `spec_layered` over the target's shield and armour, and applied to each
/// stat through its delta tracker.
pub open spec fn resolves(
    damage: Damage,
    hits: u16,
    v0: Vitals,
    v1: Vitals,
    dd: DamageDealt,
) -> bool {
    let layered = spec_layered(
        damage.base * hits,
        damage.pierce * hits,
        damage.energy * hits,
        damage.explosion * hits,
        v0.shield.spec_val() as int,
        v0.armour.spec_val() as int,
    );
    &&& dd.hits == hits
    &&& if hits == 0 {
        dd.health == 0 && dd.armour == 0 && dd.shield == 0 && v1 == v0
    } else {
        &&& dd.health == layered.0
        &&& dd.armour == layered.1
        &&& dd.shield == layered.2
        &&& v1.health.spec_val() == v0.health.spec_clamped(-(dd.health as int))
        &&& v1.health.spec_max() == v0.health.spec_max()
        &&& v1.health.spec_change() == v0.health.spec_next_change(((-(dd.health as int)) as i64))
        &&& v1.armour.spec_val() == v0.armour.spec_clamped(-(dd.armour as int))
        &&& v1.armour.spec_max() == v0.armour.spec_max()
        &&& v1.armour.spec_change() == v0.armour.spec_next_change(((-(dd.armour as int)) as i64))
        &&& v1.shield.spec_val() == v0.shield.spec_clamped(-(dd.shield as int))
        &&& v1.shield.spec_max() == v0.shield.spec_max()
        &&& v1.shield.spec_change() == v0.shield.spec_next_change(((-(dd.shield as int)) as i64))
    }
}

/// The product of two 16-bit quantities stays comfortably inside 64 bits.
proof fn lemma_u16_mul_bound(a: u16, b: u16)
    ensures
        a * b <= 0xffff_ffff,
{
    assert(a * b <= 65535 * 65535) by (nonlinear_arith)
        requires
            a <= 65535,
            b <= 65535,
    ;
}

/// Scales the damage channels by the number of landed rolls, distributes
/// them over the target's layers, and applies the result to each stat. Zero
/// hits deal nothing and mutate nothing.
pub fn apply_damage(damage: Damage, hits: u16, vitals: &mut Vitals) -> (dd: DamageDealt)
    requires
        old(vitals).inv(),
    ensures
        final(vitals).inv(),
        resolves(damage, hits, *old(vitals), *final(vitals), dd),
{
    if hits == 0 {
        return DamageDealt { health: 0, armour: 0, shield: 0, hits: 0 };
    }
    proof {
        lemma_u16_mul_bound(damage.base, hits);
        lemma_u16_mul_bound(damage.pierce, hits);
        lemma_u16_mul_bound(damage.energy, hits);
        lemma_u16_mul_bound(damage.explosion, hits);
    }
    let base: u64 = (damage.base as u64) * (hits as u64);
    let pierce: u64 = (damage.pierce as u64) * (hits as u64);
    let energy: u64 = (damage.energy as u64) * (hits as u64);
    let explosion: u64 = (damage.explosion as u64) * (hits as u64);

    let shield: u64 = vitals.shield.val() as u64;
    let armour: u64 = vitals.armour.val() as u64;

    let mut dealt_shield: u64 = 0;
    let mut remaining: u64 = base;
    let mut shield_left: u64 = shield;
    if shield != 0 {
        dealt_shield = if shield_left <= energy {
            shield_left
        } else {
            energy
        };
        shield_left = if shield_left <= energy {
            0
        } else {
            shield_left - energy
        };
        let used = if shield_left <= remaining {
            shield_left
        } else {
            remaining
        };
        dealt_shield = dealt_shield + used;
        shield_left = shield_left - used;
        remaining = remaining - used;
    }

    let mut dealt_armour: u64 = 0;
    let mut armour_left: u64 = armour;
    if shield_left == 0 && armour != 0 {
        dealt_armour = if armour_left <= pierce {
            armour_left
        } else {
            pierce
        };
        armour_left = if armour_left <= pierce {
            0
        } else {
            armour_left - pierce
        };
        let used = if armour_left <= remaining {
            armour_left
        } else {
            remaining
        };
        dealt_armour = dealt_armour + used;
        armour_left = armour_left - used;
        remaining = remaining - used;
    }

    let mut dealt_health: u64 = 0;
    if shield_left == 0 && armour_left == 0 {
        dealt_health = remaining;
    }
    dealt_health = dealt_health + explosion;

    let dd = DamageDealt {
        health: dealt_health,
        armour: dealt_armour as u16,
        shield: dealt_shield as u16,
        hits,
    };
    vitals.health.change_by(-(dd.health as i64));
    vitals.armour.change_by(-(dd.armour as i64));
    vitals.shield.change_by(-(dd.shield as i64));
    dd
}

/// Relies on rand: `thread_rng` with `Rng::gen_range` over `0..n` draws a
/// value strictly below `n`. Nothing more is assumed of the draw.
#[verifier::external_body]
fn random_below(n: u32) -> (r: u32)
    requires
        n > 0,
    ensures
        r < n,
{
    rand::Rng::gen_range(&mut rand::thread_rng(), 0..n)
}

/// Resolves `rolls` independent trials at probability `accuracy` out of
/// `ACCURACY_SCALE` and counts the successes. Certainty at either end is
/// exact: probability zero never hits, full scale always hits.
pub fn roll_hits(accuracy: u32, rolls: u16) -> (hits: u16)
    requires
        accuracy <= ACCURACY_SCALE,
    ensures
        hits <= rolls,
        accuracy == 0 ==> hits == 0,
        accuracy == ACCURACY_SCALE ==> hits == rolls,
{
    let mut hits: u16 = 0;
    let mut roll: u16 = 0;
    while roll < rolls
        invariant
            roll <= rolls,
            hits <= roll,
            accuracy == 0 ==> hits == 0,
            accuracy == ACCURACY_SCALE ==> hits == roll,
            accuracy <= ACCURACY_SCALE,
        decreases rolls - roll,
    {
        if random_below(ACCURACY_SCALE) < accuracy {
            hits = hits + 1;
        }
        roll = roll + 1;
    }
    hits
}

/// One full resolution: Bernoulli trials for the hit count, then the
/// layered damage application. Whatever the dice said, the outcome is the
/// exact resolution at the returned hit count.
pub fn simulate_damage(accuracy: u32, rolls: u16, damage: Damage, vitals: &mut Vitals) -> (dd:
    DamageDealt)
    requires
        accuracy <= ACCURACY_SCALE,
        old(vitals).inv(),
    ensures
        final(vitals).inv(),
        resolves(damage, dd.hits, *old(vitals), *final(vitals), dd),
        dd.hits <= rolls,
        accuracy == 0 ==> dd.hits == 0,
        accuracy == ACCURACY_SCALE ==> dd.hits == rolls,
{
    let hits = roll_hits(accuracy, rolls);
    apply_damage(damage, hits, vitals)
}

/// Law: a resolution that lands no hits deals nothing and mutates nothing.
pub proof fn lemma_zero_hits_zero_result(damage: Damage, v0: Vitals, v1: Vitals, dd: DamageDealt)
    requires
        resolves(damage, 0, v0, v1, dd),
    ensures
        dd.health == 0,
        dd.armour == 0,
        dd.shield == 0,
        dd.hits == 0,
        v1 == v0,
{
}

/// Law: against a target with no shield and no armour, every point of
/// generic damage reaches health, and explosive damage is added on top
/// unconditionally.
pub proof fn lemma_bare_target_full_damage(
    damage: Damage,
    hits: u16,
    v0: Vitals,
    v1: Vitals,
    dd: DamageDealt,
)
    requires
        resolves(damage, hits, v0, v1, dd),
        hits > 0,
        v0.shield.spec_val() == 0,
        v0.armour.spec_val() == 0,
    ensures
        dd.health == damage.base * hits + damage.explosion * hits,
        dd.armour == 0,
        dd.shield == 0,
{
}

} // verus!
