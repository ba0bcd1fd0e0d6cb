//! Scenario data: the starting-faction record, and the name resolution that
//! turns offline-authored cross-references into live handles at load time.
//! An unresolvable name is reported as absence; scenario loading treats that
//! as fatal.

use vstd::prelude::*;

use crate::faction::Faction;
use crate::gid::{Arena, Gid};
use crate::world::Area;

verus! {

/// The scenario's own record: which faction opens the game.
#[derive(Debug, Clone)]
pub struct Scenario {
    pub starting_faction: String,
}

/// Resolves a faction by name: some live faction carrying the name, or
/// `None` when no live faction does.
pub fn find_faction_by_name(factions: &Arena<Faction>, name: &String) -> (r: Option<Gid>)
    ensures
        match r {
            Some(g) => factions@.contains(g) && factions@.at(g).name@ == name@,
            None => forall|g: Gid|
                #[trigger] factions@.contains(g) ==> factions@.at(g).name@ != name@,
        },
{
    let ids = factions.gids();
    let mut i: usize = 0;
    while i < ids.len()
        invariant
            i <= ids@.len(),
            forall|x: Gid| ids@.contains(x) <==> factions@.contains(x),
            forall|k: int| 0 <= k < ids@.len() ==> factions@.contains(#[trigger] ids@[k]),
            forall|k: int| 0 <= k < i ==> factions@.at(#[trigger] ids@[k]).name@ != name@,
        decreases ids@.len() - i,
    {
        let gid = ids[i];
        proof {
            assert(ids@[i as int] == gid);
        }
        let matches_name = match factions.get(gid) {
            Some(faction) => faction.name == *name,
            None => vstd::pervasive::unreached(),
        };
        if matches_name {
            return Some(gid);
        }
        i = i + 1;
    }
    proof {
        assert forall|g: Gid| #[trigger] factions@.contains(g) implies factions@.at(g).name@
            != name@ by {
            assert(ids@.contains(g));
            let k = choose|k: int| 0 <= k < ids@.len() && ids@[k] == g;
        }
    }
    None
}

/// Resolves an area by name: some live area carrying the name, or `None`
/// when no live area does.
pub fn find_area_by_name(areas: &Arena<Area>, name: &String) -> (r: Option<Gid>)
    ensures
        match r {
            Some(g) => areas@.contains(g) && areas@.at(g).name@ == name@,
            None => forall|g: Gid|
                #[trigger] areas@.contains(g) ==> areas@.at(g).name@ != name@,
        },
{
    let ids = areas.gids();
    let mut i: usize = 0;
    while i < ids.len()
        invariant
            i <= ids@.len(),
            forall|x: Gid| ids@.contains(x) <==> areas@.contains(x),
            forall|k: int| 0 <= k < ids@.len() ==> areas@.contains(#[trigger] ids@[k]),
            forall|k: int| 0 <= k < i ==> areas@.at(#[trigger] ids@[k]).name@ != name@,
        decreases ids@.len() - i,
    {
        let gid = ids[i];
        proof {
            assert(ids@[i as int] == gid);
        }
        let matches_name = match areas.get(gid) {
            Some(area) => area.name == *name,
            None => vstd::pervasive::unreached(),
        };
        if matches_name {
            return Some(gid);
        }
        i = i + 1;
    }
    proof {
        assert forall|g: Gid| #[trigger] areas@.contains(g) implies areas@.at(g).name@ != name@ by {
            assert(ids@.contains(g));
            let k = choose|k: int| 0 <= k < ids@.len() && ids@[k] == g;
        }
    }
    None
}

} // verus!
