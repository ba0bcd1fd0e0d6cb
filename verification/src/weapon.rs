//! Weapons: ammunition, accuracy, and the damage channels.

use vstd::prelude::*;

verus! {

/// Ammunition on hand and the magazine's capacity.
#[derive(Debug, Copy, Clone, PartialEq, Eq, Structural)]
pub struct Ammo {
    pub val: u16,
    pub max: u16,
}

/// The four damage channels: generic base damage, armour-piercing damage,
/// shield-burning energy damage, and explosive damage that bypasses both
/// defence layers.
#[derive(Debug, Copy, Clone, PartialEq, Eq, Structural)]
pub struct Damage {
    pub base: u16,
    pub pierce: u16,
    pub energy: u16,
    pub explosion: u16,
}

/// Template for a kind of weapon, resolved by name at spawn time. Accuracy
/// is a percentage in `[0, 100]`.
#[derive(Debug, Clone)]
pub struct WeaponDef {
    pub name: String,
    pub role: String,
    pub ammo: u16,
    pub accuracy: u16,
    pub rolls: u16,
    pub weight: u16,
    pub damage: Damage,
}

/// A weapon held in its own arena and referenced through `Unit::weapon_id`.
/// Accuracy is a percentage in `[0, 100]`; `rolls` is the number of attack
/// attempts per trigger pull, each costing one round of ammunition.
#[derive(Debug)]
pub struct Weapon {
    pub name: String,
    pub role: String,
    pub ammo: Ammo,
    pub accuracy: u16,
    pub rolls: u16,
    pub weight: u16,
    pub damage: Damage,
}

impl Weapon {
    /// Validity of a weapon's own numbers: ammunition within its capacity
    /// and the accuracy a percentage.
    pub open spec fn inv(self) -> bool {
        &&& self.ammo.val <= self.ammo.max
        &&& self.accuracy <= 100
    }
}

} // verus!
