//! Factions: a name and the set of member units.

use vstd::prelude::*;

use crate::gid::Gid;

verus! {

/// A faction's membership roster is kept as a duplicate-free vector of unit
/// handles, in insertion order. Membership shrinks as units die; a faction
/// with no living units is removed from play by the turn scheduler.
#[derive(Debug)]
pub struct Faction {
    pub name: String,
    pub units: Vec<Gid>,
}

impl Faction {
    /// The roster never lists the same handle twice.
    pub open spec fn inv(self) -> bool {
        forall|k1: int, k2: int|
            0 <= k1 < k2 < self.units@.len() ==> self.units@[k1] != self.units@[k2]
    }
}

/// Template for a faction, as scenario data names it.
#[derive(Debug, Clone)]
pub struct FactionDef {
    pub name: String,
}

} // verus!
