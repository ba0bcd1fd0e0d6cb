//! Units and their bounded resource stats.

use vstd::prelude::*;

use crate::gid::Gid;

verus! {

/// A bounded resource: a current value held inside `[0, max]`, and a signed
/// tracker that accumulates the deltas applied during the current tick.
///
/// The tracker follows one consistent rule everywhere: a delta whose sign
/// bit disagrees with the tracker's (negative against non-negative, zero
/// counting as non-negative) resets the tracker to that delta; otherwise the
/// delta is accumulated, saturating at the `i64` bounds.
#[derive(Debug, Default, Copy, Clone, PartialEq, Eq, Structural)]
pub struct Stat {
    val: u16,
    max: u16,
    change: i64,
}

/// Addition on `i64` saturating at the type's bounds.
pub open spec fn sat_add_i64(a: i64, b: i64) -> i64 {
    if a + b > i64::MAX {
        i64::MAX
    } else if a + b < i64::MIN {
        i64::MIN
    } else {
        (a + b) as i64
    }
}

impl Stat {
    pub closed spec fn spec_val(self) -> u16 {
        self.val
    }

    pub closed spec fn spec_max(self) -> u16 {
        self.max
    }

    pub closed spec fn spec_change(self) -> i64 {
        self.change
    }

    /// The resource invariant: the value never leaves `[0, max]`.
    pub open spec fn inv(self) -> bool {
        self.spec_val() <= self.spec_max()
    }

    /// The value after applying `delta`, clamped into `[0, max]`.
    pub open spec fn spec_clamped(self, delta: int) -> int {
        if self.spec_val() + delta < 0 {
            0
        } else if self.spec_val() + delta > self.spec_max() {
            self.spec_max() as int
        } else {
            self.spec_val() + delta
        }
    }

    /// The tracker after applying `delta`: reset on sign disagreement,
    /// saturating accumulation otherwise.
    pub open spec fn spec_next_change(self, delta: i64) -> i64 {
        if (self.spec_change() < 0) != (delta < 0) {
            delta
        } else {
            sat_add_i64(self.spec_change(), delta)
        }
    }

    /// A full, untouched resource: value at `max`, tracker clear.
    pub fn new(max: u16) -> (s: Stat)
        ensures
            s.spec_val() == max,
            s.spec_max() == max,
            s.spec_change() == 0,
            s.inv(),
    {
        Stat { val: max, max, change: 0 }
    }

    pub fn val(&self) -> (v: u16)
        ensures
            v == self.spec_val(),
    {
        self.val
    }

    pub fn max(&self) -> (m: u16)
        ensures
            m == self.spec_max(),
    {
        self.max
    }

    pub fn change(&self) -> (c: i64)
        ensures
            c == self.spec_change(),
    {
        self.change
    }

    /// Applies a signed delta: negative deltas subtract saturating at zero,
    /// positive deltas add saturating at `max`, and the tracker follows the
    /// sign rule above. The value always stays within `[0, max]`.
    pub fn change_by(&mut self, delta: i64)
        requires
            old(self).inv(),
        ensures
            final(self).inv(),
            final(self).spec_val() == old(self).spec_clamped(delta as int),
            final(self).spec_max() == old(self).spec_max(),
            final(self).spec_change() == old(self).spec_next_change(delta),
            0 <= final(self).spec_val() <= final(self).spec_max(),
    {
        if delta < 0 {
            if delta <= -(self.val as i64) {
                self.val = 0;
            } else {
                self.val = self.val - ((-delta) as u16);
            }
        } else if delta > 0 {
            if delta >= ((self.max - self.val) as i64) {
                self.val = self.max;
            } else {
                self.val = self.val + (delta as u16);
            }
        }
        if (self.change < 0) != (delta < 0) {
            self.change = delta;
        } else if self.change >= 0 {
            if self.change > i64::MAX - delta {
                self.change = i64::MAX;
            } else {
                self.change = self.change + delta;
            }
        } else {
            if self.change < i64::MIN - delta {
                self.change = i64::MIN;
            } else {
                self.change = self.change + delta;
            }
        }
    }

    /// Zeroes the delta tracker without touching the value.
    pub fn clear_change(&mut self)
        ensures
            final(self).spec_val() == old(self).spec_val(),
            final(self).spec_max() == old(self).spec_max(),
            final(self).spec_change() == 0,
            old(self).inv() ==> final(self).inv(),
    {
        self.change = 0;
    }

    /// Whether the resource sits at its maximum.
    pub fn full(&self) -> (r: bool)
        ensures
            r == (self.spec_val() == self.spec_max()),
    {
        self.val == self.max
    }
}

/// Template for a kind of unit, resolved by name at spawn time. Accuracy is
/// a percentage in `[0, 100]`.
#[derive(Debug, Clone)]
pub struct UnitDef {
    pub name: String,
    pub accuracy: u16,
    pub health: u16,
    pub armour: u16,
    pub shield: u16,
    pub stamina: u16,
    pub speed: u16,
}

/// One entry of a scenario's spawn list: everything referenced by name.
#[derive(Debug, Clone)]
pub struct UnitSpawn {
    pub area: String,
    pub unit: String,
    pub role: String,
    pub faction: String,
    pub name: String,
    pub weapon: String,
}

/// A combatant: weak relational references into the arenas, its vitals and
/// stamina, and its accuracy multiplier as a percentage in `[0, 100]`.
#[derive(Debug)]
pub struct Unit {
    pub name: String,
    pub role: String,
    pub faction_id: Gid,
    pub area_id: Gid,
    pub weapon_id: Gid,
    pub health: Stat,
    pub armour: Stat,
    pub shield: Stat,
    pub stamina: Stat,
    pub accuracy: u16,
    pub speed: u16,
}

impl Unit {
    /// Validity of a unit's own numbers: every stat within bounds and the
    /// accuracy multiplier a percentage.
    pub open spec fn inv(self) -> bool {
        &&& self.health.inv()
        &&& self.armour.inv()
        &&& self.shield.inv()
        &&& self.stamina.inv()
        &&& self.accuracy <= 100
    }
}

} // verus!
