//! The simulation's verbs: select, deselect, attack, reload, move and
//! end-turn. Every command validates its preconditions at entry and either
//! applies completely or mutates nothing — a failed precondition is a
//! silent no-op, never a partial mutation, and no lookup ever panics.

use vstd::prelude::*;

use crate::combat;
use crate::combat::{DamageDealt, Vitals};
use crate::game::Game;
use crate::gid::Gid;
use crate::logger;
use crate::text;

verus! {

/// The parts of the state no command invents: entities, geography, and the
/// turn bookkeeping agree between the two states.
pub open spec fn same_world(a: Game, b: Game) -> bool {
    &&& b.factions == a.factions
    &&& b.units == a.units
    &&& b.weapons == a.weapons
    &&& b.areas == a.areas
    &&& b.world == a.world
    &&& b.turn_queue == a.turn_queue
    &&& b.current_faction_id == a.current_faction_id
}

/// The command finished by returning to the commands menu: menu zero, the
/// highlight on its first line, and the item list marked for recomputation.
pub open spec fn menu_reset(a: Game, b: Game) -> bool {
    &&& b.menus == a.menus
    &&& b.menu_id == 0
    &&& b.item_id == 0
    &&& b.menu_changed
}

/// Frame lemma: replacing one unit's value — keeping its references and its
/// own validity — preserves the game invariant, provided nothing else moved.
proof fn lemma_inv_unit_update(g0: Game, g1: Game, uid: Gid)
    requires
        g0.inv(),
        g0.units@.contains(uid),
        g1.units@.slots == g0.units@.slots.update(
            uid.index as int,
            crate::gid::SlotModel { generation: uid.generation, value: Some(g1.units@.at(uid)) },
        ),
        g1.units@.free == g0.units@.free,
        forall|x: Gid| g1.units@.contains(x) == g0.units@.contains(x),
        forall|x: Gid|
            x != uid && g0.units@.contains(x) ==> g1.units@.at(x) == g0.units@.at(x),
        ({
            let u0 = g0.units@.at(uid);
            let u1 = g1.units@.at(uid);
            &&& u1.inv()
            &&& u1.faction_id == u0.faction_id
            &&& u1.area_id == u0.area_id
            &&& u1.weapon_id == u0.weapon_id
        }),
        g1.factions == g0.factions,
        g1.weapons == g0.weapons,
        g1.areas == g0.areas,
        g1.turn_queue == g0.turn_queue,
        g1.menus == g0.menus,
        g1.menu_id == g0.menu_id,
        g1.commands_menu_id == g0.commands_menu_id,
        g1.select_menu_id == g0.select_menu_id,
        g1.attack_menu_id == g0.attack_menu_id,
        g1.move_menu_id == g0.move_menu_id,
    ensures
        g1.inv(),
{
    crate::gid::lemma_wf_after_update(g0.units@, g1.units@, uid, g1.units@.at(uid));
    assert forall|g: Gid| #[trigger] g1.units@.contains(g) implies g1.unit_ok(g) by {
        assert(g0.unit_ok(g));
    }
    assert forall|g: Gid| #[trigger] g1.factions@.contains(g) implies g1.faction_ok(g) by {
        assert(g0.faction_ok(g));
        let f = g1.factions@.at(g);
        assert forall|k: int| 0 <= k < f.units@.len() implies g1.units@.contains(
            #[trigger] f.units@[k],
        ) && g1.units@.at(f.units@[k]).faction_id == g by {
            assert(g0.units@.contains(f.units@[k]));
        }
    }
    assert forall|g: Gid| #[trigger] g1.areas@.contains(g) implies g1.area_ok(g) by {
        assert(g0.area_ok(g));
        let a = g1.areas@.at(g);
        assert forall|k: int| 0 <= k < a.units@.len() implies g1.units@.contains(
            #[trigger] a.units@[k],
        ) && g1.units@.at(a.units@[k]).area_id == g by {
            assert(g0.units@.contains(a.units@[k]));
        }
    }
}

/// Frame lemma: replacing one unit's value while moving its area of record
/// — provided the unit stands in no occupant roster at all — preserves the
/// game invariant.
proof fn lemma_inv_unit_rehome(g0: Game, g1: Game, uid: Gid, dest: Gid)
    requires
        g0.inv(),
        g0.units@.contains(uid),
        g0.areas@.contains(dest),
        g1.units@.slots == g0.units@.slots.update(
            uid.index as int,
            crate::gid::SlotModel { generation: uid.generation, value: Some(g1.units@.at(uid)) },
        ),
        g1.units@.free == g0.units@.free,
        forall|x: Gid| g1.units@.contains(x) == g0.units@.contains(x),
        forall|x: Gid|
            x != uid && g0.units@.contains(x) ==> g1.units@.at(x) == g0.units@.at(x),
        ({
            let u0 = g0.units@.at(uid);
            let u1 = g1.units@.at(uid);
            &&& u1.inv()
            &&& u1.faction_id == u0.faction_id
            &&& u1.area_id == dest
            &&& u1.weapon_id == u0.weapon_id
        }),
        forall|a: Gid| #[trigger] g0.areas@.contains(a) ==> !g0.areas@.at(a).units@.contains(uid),
        g1.factions == g0.factions,
        g1.weapons == g0.weapons,
        g1.areas == g0.areas,
        g1.turn_queue == g0.turn_queue,
        g1.menus == g0.menus,
        g1.menu_id == g0.menu_id,
        g1.commands_menu_id == g0.commands_menu_id,
        g1.select_menu_id == g0.select_menu_id,
        g1.attack_menu_id == g0.attack_menu_id,
        g1.move_menu_id == g0.move_menu_id,
    ensures
        g1.inv(),
{
    crate::gid::lemma_wf_after_update(g0.units@, g1.units@, uid, g1.units@.at(uid));
    assert forall|g: Gid| #[trigger] g1.units@.contains(g) implies g1.unit_ok(g) by {
        assert(g0.unit_ok(g));
    }
    assert forall|g: Gid| #[trigger] g1.factions@.contains(g) implies g1.faction_ok(g) by {
        assert(g0.faction_ok(g));
        let f = g1.factions@.at(g);
        assert forall|k: int| 0 <= k < f.units@.len() implies g1.units@.contains(
            #[trigger] f.units@[k],
        ) && g1.units@.at(f.units@[k]).faction_id == g by {
            assert(g0.units@.contains(f.units@[k]));
        }
    }
    assert forall|g: Gid| #[trigger] g1.areas@.contains(g) implies g1.area_ok(g) by {
        assert(g0.area_ok(g));
        let a = g1.areas@.at(g);
        assert forall|k: int| 0 <= k < a.units@.len() implies g1.units@.contains(
            #[trigger] a.units@[k],
        ) && g1.units@.at(a.units@[k]).area_id == g by {
            assert(g0.units@.contains(a.units@[k]));
            if a.units@[k] == uid {
                assert(g0.areas@.at(g).units@.contains(uid));
            }
        }
    }
}

/// Frame lemma: replacing one area's occupant roster — with a duplicate-free
/// roster of units whose area of record it is — preserves the game
/// invariant.
proof fn lemma_inv_area_update(g0: Game, g1: Game, aid: Gid)
    requires
        g0.inv(),
        g0.areas@.contains(aid),
        g1.areas@.slots == g0.areas@.slots.update(
            aid.index as int,
            crate::gid::SlotModel { generation: aid.generation, value: Some(g1.areas@.at(aid)) },
        ),
        g1.areas@.free == g0.areas@.free,
        forall|x: Gid| g1.areas@.contains(x) == g0.areas@.contains(x),
        forall|x: Gid|
            x != aid && g0.areas@.contains(x) ==> g1.areas@.at(x) == g0.areas@.at(x),
        ({
            let a1 = g1.areas@.at(aid);
            &&& a1.inv()
            &&& forall|k: int|
                0 <= k < a1.units@.len() ==> g0.units@.contains(#[trigger] a1.units@[k])
                    && g0.units@.at(a1.units@[k]).area_id == aid
        }),
        g1.units == g0.units,
        g1.factions == g0.factions,
        g1.weapons == g0.weapons,
        g1.turn_queue == g0.turn_queue,
        g1.menus == g0.menus,
        g1.menu_id == g0.menu_id,
        g1.commands_menu_id == g0.commands_menu_id,
        g1.select_menu_id == g0.select_menu_id,
        g1.attack_menu_id == g0.attack_menu_id,
        g1.move_menu_id == g0.move_menu_id,
    ensures
        g1.inv(),
{
    crate::gid::lemma_wf_after_update(g0.areas@, g1.areas@, aid, g1.areas@.at(aid));
    assert forall|g: Gid| #[trigger] g1.units@.contains(g) implies g1.unit_ok(g) by {
        assert(g0.unit_ok(g));
    }
    assert forall|g: Gid| #[trigger] g1.factions@.contains(g) implies g1.faction_ok(g) by {
        assert(g0.faction_ok(g));
    }
    assert forall|g: Gid| #[trigger] g1.areas@.contains(g) implies g1.area_ok(g) by {
        assert(g0.area_ok(g));
    }
}

/// Selects a unit: the selection is recorded and the commands menu
/// refreshed. A stale or unknown handle leaves everything untouched.
/// Everything selecting a unit does: on a live handle the selection is
/// recorded, the commands menu refreshed, and one message of the shape
/// "Selected <name>." appended; on a stale handle nothing at all happens.
pub open spec fn select_post(g0: Game, g1: Game, unit_id: Gid) -> bool {
    &&& (g0.units@.contains(unit_id) ==> {
        &&& g1.selected_unit_id == Some(unit_id)
        &&& same_world(g0, g1)
        &&& menu_reset(g0, g1)
        &&& g1.logger.messages@.len() == g0.logger.messages@.len() + 1
        &&& g1.logger.messages@.subrange(0, g0.logger.messages@.len() as int)
            == g0.logger.messages@
        &&& g1.logger.messages@.last().tokens@.len() == 3
        &&& g1.logger.messages@.last().tokens@[0].content@ == "Selected "@
        &&& g1.logger.messages@.last().tokens@[1].content@ == g0.units@.at(unit_id).name@
        &&& g1.logger.messages@.last().tokens@[2].content@ == "."@
    })
    &&& (!g0.units@.contains(unit_id) ==> g1 == g0)
}

pub fn select(game: &mut Game, unit_id: Gid)
    requires
        old(game).inv(),
    ensures
        final(game).inv(),
        select_post(*old(game), *final(game), unit_id),
{
    if game.units.contains(unit_id) {
        let builder = match game.units.get(unit_id) {
            Some(unit) => game.logger.message().with("Selected ", logger::text_colour()).with(
                unit.name.as_str(),
                logger::name_colour(),
            ),
            None => vstd::pervasive::unreached(),
        };
        let ghost two = builder.tokens@;
        let builder = builder.with(".", logger::text_colour());
        builder.build(&mut game.logger);
        proof {
            let t = game.logger.messages@.last().tokens@;
            assert(t.len() == 3);
            assert(t.subrange(0, 2) == two);
            assert(t.subrange(0, 2)[0] == t[0] && t.subrange(0, 2)[1] == t[1]);
            assert(two.subrange(0, 1)[0] == two[0]);
            assert(two[1] == two.last());
            assert(t[0].content@ == "Selected "@);
            assert(t[2].content@ == "."@);
        }

        game.selected_unit_id = Some(unit_id);

        let commands_menu_id = game.commands_menu_id;
        game.change_menu(commands_menu_id, true);
    }
}

/// Deselects the selected unit, if any, and refreshes the commands menu.
/// Everything deselecting does: with a selection it is cleared and the
/// commands menu refreshed, narrating "Deselected <name>." while the
/// selection was still live; with none, nothing at all happens.
pub open spec fn deselect_post(g0: Game, g1: Game) -> bool {
    &&& (g0.selected_unit_id is None ==> g1 == g0)
    &&& (g0.selected_unit_id is Some ==> {
        &&& g1.selected_unit_id is None
        &&& same_world(g0, g1)
        &&& menu_reset(g0, g1)
        &&& (g0.units@.contains(g0.selected_unit_id->0) ==> {
            &&& g1.logger.messages@.len() == g0.logger.messages@.len() + 1
            &&& g1.logger.messages@.subrange(0, g0.logger.messages@.len() as int)
                == g0.logger.messages@
            &&& g1.logger.messages@.last().tokens@.len() == 3
            &&& g1.logger.messages@.last().tokens@[0].content@ == "Deselected "@
            &&& g1.logger.messages@.last().tokens@[1].content@ == g0.units@.at(
                g0.selected_unit_id->0,
            ).name@
            &&& g1.logger.messages@.last().tokens@[2].content@ == "."@
        })
        &&& (!g0.units@.contains(g0.selected_unit_id->0) ==> g1.logger == g0.logger)
    })
}

pub fn deselect(game: &mut Game)
    requires
        old(game).inv(),
    ensures
        final(game).inv(),
        deselect_post(*old(game), *final(game)),
{
    if let Some(unit_id) = game.selected_unit_id {
        if game.units.contains(unit_id) {
            let builder = match game.units.get(unit_id) {
                Some(unit) => game.logger.message().with(
                    "Deselected ",
                    logger::text_colour(),
                ).with(unit.name.as_str(), logger::name_colour()),
                None => vstd::pervasive::unreached(),
            };
            let ghost two = builder.tokens@;
            let builder = builder.with(".", logger::text_colour());
            builder.build(&mut game.logger);
            proof {
                let t = game.logger.messages@.last().tokens@;
                assert(t.len() == 3);
                assert(t.subrange(0, 2) == two);
                assert(t.subrange(0, 2)[0] == t[0] && t.subrange(0, 2)[1] == t[1]);
                assert(two.subrange(0, 1)[0] == two[0]);
                assert(two[1] == two.last());
                assert(t[0].content@ == "Deselected "@);
                assert(t[2].content@ == "."@);
            }
        }

        game.selected_unit_id = None;

        let commands_menu_id = game.commands_menu_id;
        game.change_menu(commands_menu_id, true);
    }
}

/// Everything the placeholder command does: exactly one message reading
/// "Nothing happens." is appended, and nothing else moves.
pub open spec fn empty_post(g0: Game, g1: Game) -> bool {
    &&& g1 == (Game { logger: g1.logger, ..g0 })
    &&& g1.logger.messages@.len() == g0.logger.messages@.len() + 1
    &&& g1.logger.messages@.subrange(0, g0.logger.messages@.len() as int) == g0.logger.messages@
    &&& g1.logger.messages@.last().tokens@.len() == 1
    &&& g1.logger.messages@.last().tokens@[0].content@ == "Nothing happens."@
}

/// The placeholder command: narrates that nothing happens.
pub fn empty(game: &mut Game)
    requires
        old(game).inv(),
    ensures
        final(game).inv(),
        empty_post(*old(game), *final(game)),
{
    let builder = game.logger.message().with("Nothing happens.", logger::text_colour());
    builder.build(&mut game.logger);
    proof {
        let t = game.logger.messages@.last().tokens@;
        assert(t.len() == 1);
        assert(t.last() == t[0]);
    }
}

/// Everything reloading does: when the unit is live and its magazine is
/// not full, the magazine refills to capacity, 25 stamina is debited, the
/// commands menu refreshed, and nothing else about the unit or the world
/// moves; otherwise nothing at all happens.
pub open spec fn reload_post(g0: Game, g1: Game, unit_id: Gid) -> bool {
    let acts = g0.units@.contains(unit_id) && {
        let w = g0.weapons@.at(g0.units@.at(unit_id).weapon_id);
        w.ammo.val < w.ammo.max
    };
    if acts {
        let u0 = g0.units@.at(unit_id);
        let u1 = g1.units@.at(unit_id);
        let w0 = g0.weapons@.at(u0.weapon_id);
        &&& g1.weapons@.contains(u0.weapon_id)
        &&& g1.weapons@.at(u0.weapon_id) == (crate::weapon::Weapon {
            ammo: crate::weapon::Ammo { val: w0.ammo.max, max: w0.ammo.max },
            ..w0
        })
        &&& forall|x: Gid| g1.weapons@.contains(x) == g0.weapons@.contains(x)
        &&& forall|x: Gid|
            x != u0.weapon_id && g0.weapons@.contains(x) ==> g1.weapons@.at(x) == g0.weapons@.at(
                x,
            )
        &&& g1.units@.contains(unit_id)
        &&& u1.stamina.spec_val() == u0.stamina.spec_clamped(-25)
        &&& u1.stamina.spec_max() == u0.stamina.spec_max()
        &&& u1.stamina.spec_change() == u0.stamina.spec_next_change(-25i64)
        &&& u1.name == u0.name
        &&& u1.role == u0.role
        &&& u1.faction_id == u0.faction_id
        &&& u1.area_id == u0.area_id
        &&& u1.weapon_id == u0.weapon_id
        &&& u1.health == u0.health
        &&& u1.armour == u0.armour
        &&& u1.shield == u0.shield
        &&& u1.accuracy == u0.accuracy
        &&& u1.speed == u0.speed
        &&& forall|x: Gid| g1.units@.contains(x) == g0.units@.contains(x)
        &&& forall|x: Gid|
            x != unit_id && g0.units@.contains(x) ==> g1.units@.at(x) == g0.units@.at(x)
        &&& g1.factions == g0.factions
        &&& g1.areas == g0.areas
        &&& g1.world == g0.world
        &&& g1.turn_queue == g0.turn_queue
        &&& g1.current_faction_id == g0.current_faction_id
        &&& g1.selected_unit_id == g0.selected_unit_id
        &&& g1.logger == g0.logger
        &&& menu_reset(g0, g1)
    } else {
        g1 == g0
    }
}

/// Refills the unit's weapon to capacity for 25 stamina. Reloading an
/// already-full weapon, or through a stale handle, is a silent no-op.
pub fn reload(game: &mut Game, unit_id: Gid)
    requires
        old(game).inv(),
    ensures
        final(game).inv(),
        reload_post(*old(game), *final(game), unit_id),
{
    if game.units.contains(unit_id) {
        let ghost g0 = *game;
        let weapon_id = match game.units.get(unit_id) {
            Some(unit) => unit.weapon_id,
            None => vstd::pervasive::unreached(),
        };
        let needs_ammo = match game.weapons.get(weapon_id) {
            Some(weapon) => weapon.ammo.val < weapon.ammo.max,
            None => vstd::pervasive::unreached(),
        };
        if needs_ammo {
            let weapon = game.weapons.get_mut(weapon_id);
            weapon.ammo.val = weapon.ammo.max;
            proof {
                let g1 = *game;
                crate::gid::lemma_wf_after_update(
                    g0.weapons@,
                    g1.weapons@,
                    weapon_id,
                    g1.weapons@.at(weapon_id),
                );
                assert forall|g: Gid| #[trigger] g1.units@.contains(g) implies g1.unit_ok(g) by {
                    assert(g0.unit_ok(g));
                }
                assert forall|g: Gid| #[trigger] g1.factions@.contains(g) implies g1.faction_ok(
                    g,
                ) by {
                    assert(g0.faction_ok(g));
                }
                assert forall|g: Gid| #[trigger] g1.areas@.contains(g) implies g1.area_ok(g) by {
                    assert(g0.area_ok(g));
                }
                assert(g1.inv());
            }
            let ghost g1 = *game;
            let unit = game.units.get_mut(unit_id);
            unit.stamina.change_by(-25);
            proof {
                lemma_inv_unit_update(g1, *game, unit_id);
            }
            let commands_menu_id = game.commands_menu_id;
            game.change_menu(commands_menu_id, true);
        }
    }
}

/// Frame lemma: replacing one weapon's value — keeping it valid — preserves
/// the game invariant.
proof fn lemma_inv_weapon_update(g0: Game, g1: Game, wid: Gid)
    requires
        g0.inv(),
        g0.weapons@.contains(wid),
        g1.weapons@.slots == g0.weapons@.slots.update(
            wid.index as int,
            crate::gid::SlotModel { generation: wid.generation, value: Some(g1.weapons@.at(wid)) },
        ),
        g1.weapons@.free == g0.weapons@.free,
        forall|x: Gid| g1.weapons@.contains(x) == g0.weapons@.contains(x),
        forall|x: Gid|
            x != wid && g0.weapons@.contains(x) ==> g1.weapons@.at(x) == g0.weapons@.at(x),
        g1.weapons@.at(wid).inv(),
        g1.units == g0.units,
        g1.factions == g0.factions,
        g1.areas == g0.areas,
        g1.turn_queue == g0.turn_queue,
        g1.menus == g0.menus,
        g1.menu_id == g0.menu_id,
        g1.commands_menu_id == g0.commands_menu_id,
        g1.select_menu_id == g0.select_menu_id,
        g1.attack_menu_id == g0.attack_menu_id,
        g1.move_menu_id == g0.move_menu_id,
    ensures
        g1.inv(),
{
    crate::gid::lemma_wf_after_update(g0.weapons@, g1.weapons@, wid, g1.weapons@.at(wid));
    assert forall|g: Gid| #[trigger] g1.units@.contains(g) implies g1.unit_ok(g) by {
        assert(g0.unit_ok(g));
    }
    assert forall|g: Gid| #[trigger] g1.factions@.contains(g) implies g1.faction_ok(g) by {
        assert(g0.faction_ok(g));
    }
    assert forall|g: Gid| #[trigger] g1.areas@.contains(g) implies g1.area_ok(g) by {
        assert(g0.area_ok(g));
    }
}

/// Everything a completed attack did, given the hit record `dd`: the
/// attacker's stamina is fully spent, its weapon's ammunition is debited by
/// the attempted rolls, the target's vitals carry exactly one resolution of
/// the weapon's damage at `dd.hits`, at least one message is narrated, and
/// nothing else moves.
pub open spec fn attack_applies(g0: Game, g1: Game, target_id: Gid, dd: DamageDealt) -> bool {
    let sel = g0.selected_unit_id->0;
    let u0 = g0.units@.at(sel);
    let w0 = g0.weapons@.at(u0.weapon_id);
    let rolls = if w0.rolls <= w0.ammo.val {
        w0.rolls
    } else {
        w0.ammo.val
    };
    let accuracy = u0.accuracy * w0.accuracy;
    let t0 = g0.units@.at(target_id);
    let u1 = g1.units@.at(sel);
    let t1 = g1.units@.at(target_id);
    &&& dd.hits <= rolls
    &&& (accuracy == 0 ==> dd.hits == 0)
    &&& (accuracy == 10000 ==> dd.hits == rolls)
    &&& combat::resolves(
        w0.damage,
        dd.hits,
        Vitals { health: t0.health, armour: t0.armour, shield: t0.shield },
        Vitals { health: t1.health, armour: t1.armour, shield: t1.shield },
        dd,
    )
    &&& u1.stamina.spec_val() == 0
    &&& u1.stamina.spec_max() == u0.stamina.spec_max()
    &&& u1.stamina.spec_change() == u0.stamina.spec_next_change(
        ((-(u0.stamina.spec_max() as int)) as i64),
    )
    &&& u1.name == u0.name
    &&& u1.role == u0.role
    &&& u1.faction_id == u0.faction_id
    &&& u1.area_id == u0.area_id
    &&& u1.weapon_id == u0.weapon_id
    &&& u1.accuracy == u0.accuracy
    &&& u1.speed == u0.speed
    &&& (sel != target_id ==> u1.health == u0.health && u1.armour == u0.armour && u1.shield
        == u0.shield)
    &&& (target_id != sel ==> t1.name == t0.name && t1.role == t0.role && t1.faction_id
        == t0.faction_id && t1.area_id == t0.area_id && t1.weapon_id == t0.weapon_id && t1.accuracy
        == t0.accuracy && t1.speed == t0.speed && t1.stamina == t0.stamina)
    &&& g1.weapons@.at(u0.weapon_id) == (crate::weapon::Weapon {
        ammo: crate::weapon::Ammo { val: (w0.ammo.val - rolls) as u16, max: w0.ammo.max },
        ..w0
    })
    &&& forall|x: Gid| g1.weapons@.contains(x) == g0.weapons@.contains(x)
    &&& forall|x: Gid|
        x != u0.weapon_id && g0.weapons@.contains(x) ==> g1.weapons@.at(x) == g0.weapons@.at(x)
    &&& forall|x: Gid| g1.units@.contains(x) == g0.units@.contains(x)
    &&& forall|x: Gid|
        x != sel && x != target_id && g0.units@.contains(x) ==> g1.units@.at(x) == g0.units@.at(x)
    &&& g1.factions == g0.factions
    &&& g1.areas == g0.areas
    &&& g1.world == g0.world
    &&& g1.turn_queue == g0.turn_queue
    &&& g1.current_faction_id == g0.current_faction_id
    &&& g1.selected_unit_id == g0.selected_unit_id
    &&& g1.logger.messages@.subrange(0, g0.logger.messages@.len() as int) == g0.logger.messages@
    &&& g1.logger.messages@.len() == g0.logger.messages@.len() + (
    if t1.health.spec_val() == 0 {
        2int
    } else {
        1int
    })
    &&& ({
        let m = g1.logger.messages@[g0.logger.messages@.len() as int].tokens@;
        if dd.hits != 0 {
            &&& m.len() == 12
            &&& m[0].content@ == u0.name@
            &&& m[1].content@ == " hit ("@
            &&& m[2].content@ == crate::text::spec_dec(dd.hits as nat)
            &&& m[3].content@ == ") "@
            &&& m[4].content@ == t0.name@
            &&& m[5].content@ == " for "@
            &&& m[6].content@ == crate::text::spec_dec(dd.health as nat)
            &&& m[7].content@ == "|"@
            &&& m[8].content@ == crate::text::spec_dec(dd.armour as nat)
            &&& m[9].content@ == "|"@
            &&& m[10].content@ == crate::text::spec_dec(dd.shield as nat)
            &&& m[11].content@ == "."@
        } else {
            &&& m.len() == 4
            &&& m[0].content@ == u0.name@
            &&& m[1].content@ == " failed to hit "@
            &&& m[2].content@ == t0.name@
            &&& m[3].content@ == "."@
        }
    })
    &&& (t1.health.spec_val() == 0 ==> {
        let m = g1.logger.messages@[g0.logger.messages@.len() as int + 1].tokens@;
        &&& m.len() == 2
        &&& m[0].content@ == t0.name@
        &&& m[1].content@ == " was killed!"@
    })
    &&& menu_reset(g0, g1)
}

/// The selected unit attacks the target. The attack needs a live selection
/// and a live target; it then spends all the attacker's stamina, debits one
/// round per attempted roll, resolves the hits and applies the layered
/// damage to the target, and narrates the outcome. A stale selection is
/// cleared; any other unmet precondition is a silent no-op.
/// Everything an attack does, in every case: with a live selection and a
/// live target, some hit record `dd` accounts for the whole outcome; a
/// stale selection is cleared; anything else is a silent no-op.
pub open spec fn attack_post(g0: Game, g1: Game, target_id: Gid) -> bool {
    let sel_opt = g0.selected_unit_id;
    if sel_opt is Some && g0.units@.contains(sel_opt->0) && g0.units@.contains(target_id) {
        exists|dd: DamageDealt| attack_applies(g0, g1, target_id, dd)
    } else if sel_opt is Some && !g0.units@.contains(sel_opt->0) {
        g1 == (Game { selected_unit_id: None, ..g0 })
    } else {
        g1 == g0
    }
}

pub fn attack(game: &mut Game, target_id: Gid)
    requires
        old(game).inv(),
    ensures
        final(game).inv(),
        attack_post(*old(game), *final(game), target_id),
{
    let sel_opt = game.selected_unit_id;
    if let Some(sel) = sel_opt {
        if !game.units.contains(sel) {
            // The selection dangles: clear it and do nothing further.
            game.selected_unit_id = None;
            return ;
        }
        if !game.units.contains(target_id) {
            return ;
        }
        let ghost g0 = *game;

        // Consume the attacker's stamina: one attack per unit per turn.
        let unit = game.units.get_mut(sel);
        let stamina_max = unit.stamina.max();
        unit.stamina.change_by(-(stamina_max as i64));
        let unit_accuracy = unit.accuracy;
        let weapon_id = unit.weapon_id;
        proof {
            lemma_inv_unit_update(g0, *game, sel);
        }
        let ghost g1 = *game;

        // Read the weapon and debit ammunition for every attempted roll,
        // hit or miss.
        let weapon = game.weapons.get_mut(weapon_id);
        let damage = weapon.damage;
        let weapon_accuracy = weapon.accuracy;
        let rolls = if weapon.rolls <= weapon.ammo.val {
            weapon.rolls
        } else {
            weapon.ammo.val
        };
        weapon.ammo.val = weapon.ammo.val - rolls;
        proof {
            lemma_inv_weapon_update(g1, *game, weapon_id);
        }
        let ghost g2 = *game;

        // Resolve the rolls and the layered damage.
        proof {
            assert((unit_accuracy as u32) * (weapon_accuracy as u32) <= 10000) by (nonlinear_arith)
                requires
                    unit_accuracy <= 100,
                    weapon_accuracy <= 100,
            ;
        }
        let accuracy: u32 = (unit_accuracy as u32) * (weapon_accuracy as u32);
        let mut vitals = match game.units.get(target_id) {
            Some(target) => Vitals {
                health: target.health,
                armour: target.armour,
                shield: target.shield,
            },
            None => vstd::pervasive::unreached(),
        };
        let dd = combat::simulate_damage(accuracy, rolls, damage, &mut vitals);

        // Deal the damage to the target's vitals.
        let target = game.units.get_mut(target_id);
        target.health = vitals.health;
        target.armour = vitals.armour;
        target.shield = vitals.shield;
        proof {
            lemma_inv_unit_update(g2, *game, target_id);
        }

        // Narrate the outcome.
        let (attacker_name, target_name) = match (game.units.get(sel), game.units.get(target_id)) {
            (Some(unit), Some(target)) => (unit.name.clone(), target.name.clone()),
            _ => vstd::pervasive::unreached(),
        };
        let ghost log0 = game.logger.messages@;
        if dd.hits != 0 {
            let b = game.logger.message().with(attacker_name.as_str(), logger::name_colour());
            let ghost s1 = b.tokens@;
            let b = b.with(" hit (", logger::text_colour());
            let ghost s2 = b.tokens@;
            let hits_text = text::dec_string(dd.hits as u64);
            let b = b.with(hits_text.as_str(), logger::number_colour());
            let ghost s3 = b.tokens@;
            let b = b.with(") ", logger::text_colour());
            let ghost s4 = b.tokens@;
            let b = b.with(target_name.as_str(), logger::name_colour());
            let ghost s5 = b.tokens@;
            let b = b.with(" for ", logger::text_colour());
            let ghost s6 = b.tokens@;
            let health_text = text::dec_string(dd.health);
            let b = b.with(health_text.as_str(), logger::health_colour());
            let ghost s7 = b.tokens@;
            let b = b.with("|", logger::text_colour());
            let ghost s8 = b.tokens@;
            let armour_text = text::dec_string(dd.armour as u64);
            let b = b.with(armour_text.as_str(), logger::armour_colour());
            let ghost s9 = b.tokens@;
            let b = b.with("|", logger::text_colour());
            let ghost s10 = b.tokens@;
            let shield_text = text::dec_string(dd.shield as u64);
            let b = b.with(shield_text.as_str(), logger::shield_colour());
            let ghost s11 = b.tokens@;
            let b = b.with(".", logger::text_colour());
            b.build(&mut game.logger);
            proof {
                let t = game.logger.messages@.last().tokens@;
                assert(t.len() == 12);
                assert(t.subrange(0, 11) == s11);
                assert(t.subrange(0, 11)[0] == t[0]);
                assert(t.subrange(0, 11)[1] == t[1]);
                assert(t.subrange(0, 11)[2] == t[2]);
                assert(t.subrange(0, 11)[3] == t[3]);
                assert(t.subrange(0, 11)[4] == t[4]);
                assert(t.subrange(0, 11)[5] == t[5]);
                assert(t.subrange(0, 11)[6] == t[6]);
                assert(t.subrange(0, 11)[7] == t[7]);
                assert(t.subrange(0, 11)[8] == t[8]);
                assert(t.subrange(0, 11)[9] == t[9]);
                assert(t.subrange(0, 11)[10] == t[10]);
                assert(s11.subrange(0, 10) == s10);
                assert(s11.subrange(0, 10)[0] == s11[0]);
                assert(s11.subrange(0, 10)[1] == s11[1]);
                assert(s11.subrange(0, 10)[2] == s11[2]);
                assert(s11.subrange(0, 10)[3] == s11[3]);
                assert(s11.subrange(0, 10)[4] == s11[4]);
                assert(s11.subrange(0, 10)[5] == s11[5]);
                assert(s11.subrange(0, 10)[6] == s11[6]);
                assert(s11.subrange(0, 10)[7] == s11[7]);
                assert(s11.subrange(0, 10)[8] == s11[8]);
                assert(s11.subrange(0, 10)[9] == s11[9]);
                assert(s10.subrange(0, 9) == s9);
                assert(s10.subrange(0, 9)[0] == s10[0]);
                assert(s10.subrange(0, 9)[1] == s10[1]);
                assert(s10.subrange(0, 9)[2] == s10[2]);
                assert(s10.subrange(0, 9)[3] == s10[3]);
                assert(s10.subrange(0, 9)[4] == s10[4]);
                assert(s10.subrange(0, 9)[5] == s10[5]);
                assert(s10.subrange(0, 9)[6] == s10[6]);
                assert(s10.subrange(0, 9)[7] == s10[7]);
                assert(s10.subrange(0, 9)[8] == s10[8]);
                assert(s9.subrange(0, 8) == s8);
                assert(s9.subrange(0, 8)[0] == s9[0]);
                assert(s9.subrange(0, 8)[1] == s9[1]);
                assert(s9.subrange(0, 8)[2] == s9[2]);
                assert(s9.subrange(0, 8)[3] == s9[3]);
                assert(s9.subrange(0, 8)[4] == s9[4]);
                assert(s9.subrange(0, 8)[5] == s9[5]);
                assert(s9.subrange(0, 8)[6] == s9[6]);
                assert(s9.subrange(0, 8)[7] == s9[7]);
                assert(s8.subrange(0, 7) == s7);
                assert(s8.subrange(0, 7)[0] == s8[0]);
                assert(s8.subrange(0, 7)[1] == s8[1]);
                assert(s8.subrange(0, 7)[2] == s8[2]);
                assert(s8.subrange(0, 7)[3] == s8[3]);
                assert(s8.subrange(0, 7)[4] == s8[4]);
                assert(s8.subrange(0, 7)[5] == s8[5]);
                assert(s8.subrange(0, 7)[6] == s8[6]);
                assert(s7.subrange(0, 6) == s6);
                assert(s7.subrange(0, 6)[0] == s7[0]);
                assert(s7.subrange(0, 6)[1] == s7[1]);
                assert(s7.subrange(0, 6)[2] == s7[2]);
                assert(s7.subrange(0, 6)[3] == s7[3]);
                assert(s7.subrange(0, 6)[4] == s7[4]);
                assert(s7.subrange(0, 6)[5] == s7[5]);
                assert(s6.subrange(0, 5) == s5);
                assert(s6.subrange(0, 5)[0] == s6[0]);
                assert(s6.subrange(0, 5)[1] == s6[1]);
                assert(s6.subrange(0, 5)[2] == s6[2]);
                assert(s6.subrange(0, 5)[3] == s6[3]);
                assert(s6.subrange(0, 5)[4] == s6[4]);
                assert(s5.subrange(0, 4) == s4);
                assert(s5.subrange(0, 4)[0] == s5[0]);
                assert(s5.subrange(0, 4)[1] == s5[1]);
                assert(s5.subrange(0, 4)[2] == s5[2]);
                assert(s5.subrange(0, 4)[3] == s5[3]);
                assert(s4.subrange(0, 3) == s3);
                assert(s4.subrange(0, 3)[0] == s4[0]);
                assert(s4.subrange(0, 3)[1] == s4[1]);
                assert(s4.subrange(0, 3)[2] == s4[2]);
                assert(s3.subrange(0, 2) == s2);
                assert(s3.subrange(0, 2)[0] == s3[0]);
                assert(s3.subrange(0, 2)[1] == s3[1]);
                assert(s2.subrange(0, 1) == s1);
                assert(s2.subrange(0, 1)[0] == s2[0]);
                assert(s1.last() == s1[0]);
                assert(s2.last() == s2[1]);
                assert(s3.last() == s3[2]);
                assert(s4.last() == s4[3]);
                assert(s5.last() == s5[4]);
                assert(s6.last() == s6[5]);
                assert(s7.last() == s7[6]);
                assert(s8.last() == s8[7]);
                assert(s9.last() == s9[8]);
                assert(s10.last() == s10[9]);
                assert(s11.last() == s11[10]);
                assert(game.logger.messages@[log0.len() as int] == game.logger.messages@.last());
            }
        } else {
            let b = game.logger.message().with(attacker_name.as_str(), logger::name_colour());
            let ghost s1 = b.tokens@;
            let b = b.with(" failed to hit ", logger::text_colour());
            let ghost s2 = b.tokens@;
            let b = b.with(target_name.as_str(), logger::name_colour());
            let ghost s3 = b.tokens@;
            let b = b.with(".", logger::text_colour());
            b.build(&mut game.logger);
            proof {
                let t = game.logger.messages@.last().tokens@;
                assert(t.len() == 4);
                assert(t.subrange(0, 3) == s3);
                assert(t.subrange(0, 3)[0] == t[0]);
                assert(t.subrange(0, 3)[1] == t[1]);
                assert(t.subrange(0, 3)[2] == t[2]);
                assert(s3.subrange(0, 2) == s2);
                assert(s3.subrange(0, 2)[0] == s3[0]);
                assert(s3.subrange(0, 2)[1] == s3[1]);
                assert(s2.subrange(0, 1) == s1);
                assert(s2.subrange(0, 1)[0] == s2[0]);
                assert(s1.last() == s1[0]);
                assert(s2.last() == s2[1]);
                assert(s3.last() == s3[2]);
                assert(game.logger.messages@[log0.len() as int] == game.logger.messages@.last());
            }
        }
        let ghost log1 = game.logger.messages@;

        // Narrate a kill.
        let target_dead = match game.units.get(target_id) {
            Some(target) => target.health.val() == 0,
            None => vstd::pervasive::unreached(),
        };
        if target_dead {
            let b = game.logger.message().with(target_name.as_str(), logger::name_colour());
            let ghost s1 = b.tokens@;
            let b = b.with(" was killed!", logger::text_colour());
            b.build(&mut game.logger);
            proof {
                let t = game.logger.messages@.last().tokens@;
                assert(t.len() == 2);
                assert(t.subrange(0, 1) == s1);
                assert(t.subrange(0, 1)[0] == t[0]);
                assert(s1.last() == s1[0]);
                assert(game.logger.messages@[log0.len() as int + 1] == game.logger.messages@.last());
                assert(game.logger.messages@.subrange(0, log1.len() as int)[log0.len() as int]
                    == game.logger.messages@[log0.len() as int]);
                assert(game.logger.messages@[log0.len() as int] == log1[log0.len() as int]);
                assert(game.logger.messages@.subrange(0, log0.len() as int) =~= log0) by {
                    assert forall|m: int| 0 <= m < log0.len() implies game.logger.messages@[m]
                        == log0[m] by {
                        assert(game.logger.messages@.subrange(0, log1.len() as int)[m]
                            == game.logger.messages@[m]);
                        assert(log1.subrange(0, log0.len() as int)[m] == log1[m]);
                    }
                }
            }
        }

        // Return to the commands menu.
        let commands_menu_id = game.commands_menu_id;
        game.change_menu(commands_menu_id, true);
        proof {
            assert(attack_applies(g0, *game, target_id, dd));
        }
    }
}

/// Moves a unit one hop. The move happens only when the unit and the
/// destination are live, a directed connection leads from the unit's area
/// of record to the destination, and the unit has at least 50 stamina; it
/// then re-homes the unit eagerly — both occupant rosters are updated — and
/// debits exactly 50 stamina. Anything less is a silent no-op, except that a
/// stale unit handle clears the dangling selection.
/// Everything a move does, in every case: a legal move re-homes the unit,
/// debits exactly 50 stamina and refreshes the commands menu; anything less
/// is a silent no-op, except that a stale unit handle clears the dangling
/// selection.
pub open spec fn movement_post(g0: Game, g1: Game, unit_id: Gid, destination_id: Gid) -> bool {
    ({
            let valid = g0.units@.contains(unit_id) && g0.areas@.contains(
                destination_id,
            );
            let u0 = g0.units@.at(unit_id);
            let acts = valid && g0.world.spec_edges().contains((u0.area_id, destination_id))
                && u0.stamina.spec_val() >= 50;
            if acts {
                let u1 = g1.units@.at(unit_id);
                &&& g1.units@.contains(unit_id)
                &&& u1.area_id == destination_id
                &&& u1.stamina.spec_val() == u0.stamina.spec_val() - 50
                &&& u1.stamina.spec_max() == u0.stamina.spec_max()
                &&& u1.stamina.spec_change() == u0.stamina.spec_next_change(-50i64)
                &&& u1.name == u0.name
                &&& u1.role == u0.role
                &&& u1.faction_id == u0.faction_id
                &&& u1.weapon_id == u0.weapon_id
                &&& u1.health == u0.health
                &&& u1.armour == u0.armour
                &&& u1.shield == u0.shield
                &&& u1.accuracy == u0.accuracy
                &&& u1.speed == u0.speed
                &&& forall|x: Gid|
                    g1.units@.contains(x) == g0.units@.contains(x)
                &&& forall|x: Gid|
                    x != unit_id && g0.units@.contains(x) ==> g1.units@.at(x)
                        == g0.units@.at(x)
                &&& forall|a: Gid|
                    g1.areas@.contains(a) == g0.areas@.contains(a)
                &&& forall|a: Gid|
                    a != u0.area_id && a != destination_id && g0.areas@.contains(a)
                        ==> g1.areas@.at(a) == g0.areas@.at(a)
                &&& g1.areas@.at(destination_id).units@.contains(unit_id)
                &&& (u0.area_id != destination_id ==> !g1.areas@.at(
                    u0.area_id,
                ).units@.contains(unit_id))
                &&& forall|x: Gid|
                    x != unit_id ==> (g1.areas@.at(u0.area_id).units@.contains(x)
                        <==> g0.areas@.at(u0.area_id).units@.contains(x))
                &&& forall|x: Gid|
                    x != unit_id ==> (g1.areas@.at(destination_id).units@.contains(x)
                        <==> g0.areas@.at(destination_id).units@.contains(x))
                &&& g1.areas@.at(u0.area_id).name == g0.areas@.at(u0.area_id).name
                &&& g1.areas@.at(destination_id).name == g0.areas@.at(
                    destination_id,
                ).name
                &&& g1.factions == g0.factions
                &&& g1.weapons == g0.weapons
                &&& g1.world == g0.world
                &&& g1.turn_queue == g0.turn_queue
                &&& g1.current_faction_id == g0.current_faction_id
                &&& g1.selected_unit_id == g0.selected_unit_id
                &&& g1.logger == g0.logger
                &&& menu_reset(g0, g1)
            } else if g0.units@.contains(unit_id) {
                g1 == (Game { menu_id: 0, item_id: 0, menu_changed: true, ..g0 })
            } else {
                g1 == (Game {
                    selected_unit_id: None,
                    menu_id: 0,
                    item_id: 0,
                    menu_changed: true,
                    ..g0
                })
            }
        })
}

pub fn movement(game: &mut Game, unit_id: Gid, destination_id: Gid)
    requires
        old(game).inv(),
    ensures
        final(game).inv(),
        movement_post(*old(game), *final(game), unit_id, destination_id),
{
    if game.units.contains(unit_id) {
        if game.areas.contains(destination_id) {
            let (from_area, stamina_val) = match game.units.get(unit_id) {
                Some(unit) => (unit.area_id, unit.stamina.val()),
                None => vstd::pervasive::unreached(),
            };
            if game.world.contains_edge(from_area, destination_id) && stamina_val >= 50 {
                let ghost g_start = *game;

                // Leave the old area's occupant roster.
                let area_from = game.areas.get_mut(from_area);
                crate::gid::remove_gid(&mut area_from.units, unit_id);
                proof {
                    assert(g_start.area_ok(from_area));
                    let a1 = game.areas@.at(from_area);
                    assert forall|k: int| 0 <= k < a1.units@.len() implies g_start.units@.contains(
                        #[trigger] a1.units@[k],
                    ) && g_start.units@.at(a1.units@[k]).area_id == from_area by {
                        assert(g_start.areas@.at(from_area).units@.contains(a1.units@[k]));
                        let j = choose|j: int|
                            0 <= j < g_start.areas@.at(from_area).units@.len()
                                && g_start.areas@.at(from_area).units@[j] == a1.units@[k];
                    }
                    lemma_inv_area_update(g_start, *game, from_area);
                }
                let ghost g_left = *game;

                // Re-home the unit and debit the stamina.
                let unit = game.units.get_mut(unit_id);
                unit.area_id = destination_id;
                unit.stamina.change_by(-50);
                proof {
                    assert forall|a: Gid| #[trigger] g_left.areas@.contains(a) implies !g_left
                        .areas@.at(a).units@.contains(unit_id) by {
                        if a != from_area {
                            if g_left.areas@.at(a).units@.contains(unit_id) {
                                assert(g_start.area_ok(a));
                                let j = choose|j: int|
                                    0 <= j < g_left.areas@.at(a).units@.len() && g_left.areas@.at(
                                        a,
                                    ).units@[j] == unit_id;
                                assert(g_start.units@.at(unit_id).area_id == a);
                            }
                        }
                    }
                    lemma_inv_unit_rehome(g_left, *game, unit_id, destination_id);
                }
                let ghost g_moved = *game;

                // Enter the destination's occupant roster.
                let area_to = game.areas.get_mut(destination_id);
                area_to.units.push(unit_id);
                proof {
                    let ghost r0 = g_moved.areas@.at(destination_id).units@;
                    assert(!r0.contains(unit_id)) by {
                        if r0.contains(unit_id) {
                            assert(g_left.areas@.at(destination_id).units@.contains(unit_id));
                        }
                    }
                    assert(g_moved.area_ok(destination_id));
                    let a1 = game.areas@.at(destination_id);
                    assert(a1.units@ =~= r0.push(unit_id));
                    assert forall|k1: int, k2: int|
                        0 <= k1 < k2 < a1.units@.len() implies a1.units@[k1] != a1.units@[k2] by {
                        if k2 == a1.units@.len() - 1 {
                            assert(a1.units@[k1] == r0[k1]);
                            if r0[k1] == unit_id {
                                assert(r0.contains(unit_id));
                            }
                        }
                    }
                    assert forall|k: int| 0 <= k < a1.units@.len() implies g_moved.units@.contains(
                        #[trigger] a1.units@[k],
                    ) && g_moved.units@.at(a1.units@[k]).area_id == destination_id by {
                        if k < r0.len() {
                            assert(a1.units@[k] == r0[k]);
                        } else {
                            assert(a1.units@[k] == unit_id);
                        }
                    }
                    lemma_inv_area_update(g_moved, *game, destination_id);
                    broadcast use vstd::seq_lib::lemma_seq_contains_after_push;

                    assert(a1.units@ == r0.push(unit_id));
                    assert(game.areas@.at(destination_id).units@.contains(unit_id));
                    assert forall|x: Gid| x != unit_id implies (game.areas@.at(
                        from_area,
                    ).units@.contains(x) <==> g_start.areas@.at(from_area).units@.contains(x)) by {
                        if from_area == destination_id {
                            assert(game.areas@.at(from_area).units@ == g_left.areas@.at(
                                from_area,
                            ).units@.push(unit_id));
                        } else {
                            assert(game.areas@.at(from_area) == g_left.areas@.at(from_area));
                        }
                    }
                    assert forall|x: Gid| x != unit_id implies (game.areas@.at(
                        destination_id,
                    ).units@.contains(x) <==> g_start.areas@.at(destination_id).units@.contains(
                        x,
                    )) by {
                        if from_area != destination_id {
                            assert(r0 == g_start.areas@.at(destination_id).units@);
                        }
                    }
                }
            }
        }
    } else {
        game.selected_unit_id = None;
    }
    let commands_menu_id = game.commands_menu_id;
    game.change_menu(commands_menu_id, true);
}

/// Frame lemma: replacing one faction's value — keeping its name and a
/// duplicate-free roster of its own live units — preserves the game
/// invariant.
proof fn lemma_inv_faction_update(g0: Game, g1: Game, fid: Gid)
    requires
        g0.inv(),
        g0.factions@.contains(fid),
        g1.factions@.slots == g0.factions@.slots.update(
            fid.index as int,
            crate::gid::SlotModel { generation: fid.generation, value: Some(g1.factions@.at(fid)) },
        ),
        g1.factions@.free == g0.factions@.free,
        forall|x: Gid| g1.factions@.contains(x) == g0.factions@.contains(x),
        forall|x: Gid|
            x != fid && g0.factions@.contains(x) ==> g1.factions@.at(x) == g0.factions@.at(x),
        ({
            let f1 = g1.factions@.at(fid);
            &&& f1.inv()
            &&& forall|k: int|
                0 <= k < f1.units@.len() ==> g0.units@.contains(#[trigger] f1.units@[k])
                    && g0.units@.at(f1.units@[k]).faction_id == fid
        }),
        g1.units == g0.units,
        g1.weapons == g0.weapons,
        g1.areas == g0.areas,
        g1.turn_queue == g0.turn_queue,
        g1.menus == g0.menus,
        g1.menu_id == g0.menu_id,
        g1.commands_menu_id == g0.commands_menu_id,
        g1.select_menu_id == g0.select_menu_id,
        g1.attack_menu_id == g0.attack_menu_id,
        g1.move_menu_id == g0.move_menu_id,
    ensures
        g1.inv(),
{
    crate::gid::lemma_wf_after_update(g0.factions@, g1.factions@, fid, g1.factions@.at(fid));
    assert forall|g: Gid| #[trigger] g1.units@.contains(g) implies g1.unit_ok(g) by {
        assert(g0.unit_ok(g));
    }
    assert forall|g: Gid| #[trigger] g1.factions@.contains(g) implies g1.faction_ok(g) by {
        assert(g0.faction_ok(g));
    }
    assert forall|g: Gid| #[trigger] g1.areas@.contains(g) implies g1.area_ok(g) by {
        assert(g0.area_ok(g));
    }
}

/// Frame lemma: removing a unit that no roster mentions any more preserves
/// the game invariant.
proof fn lemma_inv_unit_removed(g0: Game, g1: Game, uid: Gid)
    requires
        g0.inv(),
        g1.units@.wf(),
        !g1.units@.contains(uid),
        forall|x: Gid| x != uid ==> g1.units@.contains(x) == g0.units@.contains(x),
        forall|x: Gid|
            x != uid && g0.units@.contains(x) ==> g1.units@.at(x) == g0.units@.at(x),
        forall|f: Gid|
            #[trigger] g0.factions@.contains(f) ==> !g0.factions@.at(f).units@.contains(uid),
        forall|a: Gid| #[trigger] g0.areas@.contains(a) ==> !g0.areas@.at(a).units@.contains(uid),
        g1.factions == g0.factions,
        g1.weapons == g0.weapons,
        g1.areas == g0.areas,
        g1.turn_queue == g0.turn_queue,
        g1.menus == g0.menus,
        g1.menu_id == g0.menu_id,
        g1.commands_menu_id == g0.commands_menu_id,
        g1.select_menu_id == g0.select_menu_id,
        g1.attack_menu_id == g0.attack_menu_id,
        g1.move_menu_id == g0.move_menu_id,
    ensures
        g1.inv(),
{
    assert forall|g: Gid| #[trigger] g1.units@.contains(g) implies g1.unit_ok(g) by {
        assert(g0.units@.contains(g));
        assert(g0.unit_ok(g));
    }
    assert forall|g: Gid| #[trigger] g1.factions@.contains(g) implies g1.faction_ok(g) by {
        assert(g0.faction_ok(g));
        let f = g1.factions@.at(g);
        assert forall|k: int| 0 <= k < f.units@.len() implies g1.units@.contains(
            #[trigger] f.units@[k],
        ) && g1.units@.at(f.units@[k]).faction_id == g by {
            assert(g0.units@.contains(f.units@[k]));
            if f.units@[k] == uid {
                assert(g0.factions@.at(g).units@.contains(uid));
            }
        }
    }
    assert forall|g: Gid| #[trigger] g1.areas@.contains(g) implies g1.area_ok(g) by {
        assert(g0.area_ok(g));
        let a = g1.areas@.at(g);
        assert forall|k: int| 0 <= k < a.units@.len() implies g1.units@.contains(
            #[trigger] a.units@[k],
        ) && g1.units@.at(a.units@[k]).area_id == g by {
            assert(g0.units@.contains(a.units@[k]));
            if a.units@[k] == uid {
                assert(g0.areas@.at(g).units@.contains(uid));
            }
        }
    }
}

/// Frame lemma: removing a faction that the turn queue no longer names
/// preserves the game invariant.
proof fn lemma_inv_faction_removed(g0: Game, g1: Game, fid: Gid)
    requires
        g0.inv(),
        g1.factions@.wf(),
        !g1.factions@.contains(fid),
        forall|x: Gid| x != fid ==> g1.factions@.contains(x) == g0.factions@.contains(x),
        forall|x: Gid|
            x != fid && g0.factions@.contains(x) ==> g1.factions@.at(x) == g0.factions@.at(x),
        !g0.turn_queue@.contains(fid),
        g1.units == g0.units,
        g1.weapons == g0.weapons,
        g1.areas == g0.areas,
        g1.turn_queue == g0.turn_queue,
        g1.menus == g0.menus,
        g1.menu_id == g0.menu_id,
        g1.commands_menu_id == g0.commands_menu_id,
        g1.select_menu_id == g0.select_menu_id,
        g1.attack_menu_id == g0.attack_menu_id,
        g1.move_menu_id == g0.move_menu_id,
    ensures
        g1.inv(),
{
    assert forall|g: Gid| #[trigger] g1.units@.contains(g) implies g1.unit_ok(g) by {
        assert(g0.unit_ok(g));
    }
    assert forall|g: Gid| #[trigger] g1.factions@.contains(g) implies g1.faction_ok(g) by {
        assert(g0.faction_ok(g));
    }
    assert forall|g: Gid| #[trigger] g1.areas@.contains(g) implies g1.area_ok(g) by {
        assert(g0.area_ok(g));
    }
    assert forall|k: int| 0 <= k < g1.turn_queue@.len() implies g1.factions@.contains(
        #[trigger] g1.turn_queue@[k],
    ) by {
        assert(g0.factions@.contains(g0.turn_queue@[k]));
        if g1.turn_queue@[k] == fid {
            assert(g0.turn_queue@.contains(fid)) by {
                assert(g0.turn_queue@[k] == fid);
            }
        }
    }
}

/// Removes the first occurrence of a handle from the turn queue; on the
/// duplicate-free queues the invariant maintains, the handle is gone
/// afterwards and every other entry keeps its membership.
fn remove_from_queue(q: &mut std::collections::VecDeque<Gid>, gid: Gid)
    requires
        forall|k1: int, k2: int| 0 <= k1 < k2 < old(q)@.len() ==> old(q)@[k1] != old(q)@[k2],
    ensures
        !final(q)@.contains(gid),
        forall|x: Gid| x != gid ==> (final(q)@.contains(x) <==> old(q)@.contains(x)),
        forall|k1: int, k2: int| 0 <= k1 < k2 < final(q)@.len() ==> final(q)@[k1] != final(q)@[k2],
        forall|k: int| 0 <= k < final(q)@.len() ==> old(q)@.contains(#[trigger] final(q)@[k]),
        !old(q)@.contains(gid) ==> final(q)@ == old(q)@,
        old(q)@.len() > 0 && old(q)@[0] != gid ==> final(q)@.len() > 0 && final(q)@[0] == old(
            q,
        )@[0],
{
    let ghost q0 = q@;
    let mut i: usize = 0;
    while i < q.len()
        invariant
            q0 == old(q)@,
            forall|k1: int, k2: int| 0 <= k1 < k2 < q0.len() ==> q0[k1] != q0[k2],
            i <= q0.len(),
            q@ == q0,
            forall|k: int| 0 <= k < i ==> q0[k] != gid,
        decreases q0.len() - i,
    {
        if q[i] == gid {
            q.remove(i);
            proof {
                assert(q@ =~= q0.subrange(0, i as int) + q0.subrange(i + 1, q0.len() as int));
                if q0[0] != gid {
                    assert(i >= 1);
                    assert(q@[0] == q0[0]);
                }
                assert forall|k: int| 0 <= k < q@.len() implies q0.contains(#[trigger] q@[k]) by {
                    if k < i {
                        assert(q@[k] == q0[k]);
                    } else {
                        assert(q@[k] == q0[k + 1]);
                    }
                }
                assert forall|k1: int, k2: int|
                    0 <= k1 < k2 < q@.len() implies q@[k1] != q@[k2] by {
                    assert(q@[k1] == if k1 < i {
                        q0[k1]
                    } else {
                        q0[k1 + 1]
                    });
                    assert(q@[k2] == if k2 < i {
                        q0[k2]
                    } else {
                        q0[k2 + 1]
                    });
                }
                assert forall|k: int| 0 <= k < q@.len() implies q@[k] != gid by {
                    if k < i {
                        assert(q@[k] == q0[k]);
                    } else {
                        assert(q@[k] == q0[k + 1]);
                        assert(q0[k + 1] != q0[i as int]);
                    }
                }
                assert(!q@.contains(gid));
                assert forall|x: Gid| x != gid implies (q@.contains(x) <==> q0.contains(x)) by {
                    if q0.contains(x) {
                        let k = choose|k: int| 0 <= k < q0.len() && q0[k] == x;
                        if k < i {
                            assert(q@[k] == x);
                        } else {
                            assert(q@[k - 1] == x);
                        }
                    }
                    if q@.contains(x) {
                        let k = choose|k: int| 0 <= k < q@.len() && q@[k] == x;
                        assert(q0.contains(x));
                    }
                }
            }
            return ;
        }
        i = i + 1;
    }
    proof {
        assert forall|x: Gid| q0.contains(x) implies x != gid by {
            let k = choose|k: int| 0 <= k < q0.len() && q0[k] == x;
        }
        assert(!q0.contains(gid));
    }
}

/// Collects the roster entries whose health has reached zero: the units the
/// prune pass will remove.
fn collect_dead(units: &crate::gid::Arena<crate::unit::Unit>, roster: &Vec<Gid>) -> (dead: Vec<
    Gid,
>)
    requires
        forall|k: int| 0 <= k < roster@.len() ==> units@.contains(#[trigger] roster@[k]),
        forall|k1: int, k2: int| 0 <= k1 < k2 < roster@.len() ==> roster@[k1] != roster@[k2],
    ensures
        forall|k: int|
            0 <= k < dead@.len() ==> roster@.contains(#[trigger] dead@[k]) && units@.at(
                dead@[k],
            ).health.spec_val() == 0,
        forall|x: Gid|
            roster@.contains(x) && units@.at(x).health.spec_val() == 0 ==> dead@.contains(x),
        forall|k1: int, k2: int| 0 <= k1 < k2 < dead@.len() ==> dead@[k1] != dead@[k2],
{
    let mut dead: Vec<Gid> = Vec::new();
    let mut i: usize = 0;
    while i < roster.len()
        invariant
            forall|k: int| 0 <= k < roster@.len() ==> units@.contains(#[trigger] roster@[k]),
            forall|k1: int, k2: int| 0 <= k1 < k2 < roster@.len() ==> roster@[k1] != roster@[k2],
            i <= roster@.len(),
            forall|k: int| #![trigger dead@[k]]
                0 <= k < dead@.len() ==> exists|j: int|
                    0 <= j < i && #[trigger] roster@[j] == dead@[k],
            forall|k: int| 0 <= k < dead@.len() ==> units@.at(#[trigger] dead@[k]).health.spec_val()
                == 0,
            forall|j: int|
                0 <= j < i && units@.at(#[trigger] roster@[j]).health.spec_val() == 0
                    ==> dead@.contains(roster@[j]),
            forall|k1: int, k2: int| 0 <= k1 < k2 < dead@.len() ==> dead@[k1] != dead@[k2],
        decreases roster@.len() - i,
    {
        let uid = roster[i];
        proof {
            assert(roster@.contains(uid)) by {
                assert(roster@[i as int] == uid);
            }
        }
        let is_dead = match units.get(uid) {
            Some(unit) => unit.health.val() == 0,
            None => vstd::pervasive::unreached(),
        };
        if is_dead {
            let ghost dead0 = dead@;
            dead.push(uid);
            proof {
                assert forall|k: int| #![trigger dead@[k]] 0 <= k < dead@.len() implies exists|
                    j: int,
                |
                    0 <= j < i + 1 && #[trigger] roster@[j] == dead@[k] by {
                    if k < dead0.len() {
                        assert(dead@[k] == dead0[k]);
                        let j = choose|j: int| 0 <= j < i && roster@[j] == dead0[k];
                        assert(roster@[j] == dead@[k]);
                    } else {
                        assert(dead@[k] == uid);
                        assert(roster@[i as int] == dead@[k]);
                    }
                }
                assert forall|k1: int, k2: int|
                    0 <= k1 < k2 < dead@.len() implies dead@[k1] != dead@[k2] by {
                    if k2 == dead0.len() as int {
                        assert(dead@[k1] == dead0[k1]);
                        let j = choose|j: int| 0 <= j < i && roster@[j] == dead0[k1];
                        assert(roster@[j] != roster@[i as int]);
                    }
                }
                assert forall|j: int|
                    0 <= j < i + 1 && units@.at(#[trigger] roster@[j]).health.spec_val() == 0
                        implies dead@.contains(roster@[j]) by {
                    broadcast use vstd::seq_lib::lemma_seq_contains_after_push;

                    if j < i {
                        assert(dead0.contains(roster@[j]));
                    }
                }
            }
        }
        i = i + 1;
    }
    proof {
        assert forall|x: Gid|
            roster@.contains(x) && units@.at(x).health.spec_val() == 0 implies dead@.contains(
            x,
        ) by {
            let j = choose|j: int| 0 <= j < roster@.len() && roster@[j] == x;
        }
        assert forall|k: int| 0 <= k < dead@.len() implies roster@.contains(#[trigger] dead@[k]) by {
            let j = choose|j: int| 0 <= j < roster@.len() && roster@[j] == dead@[k];
        }
    }
    dead
}

/// Removes one fallen unit from play: from its area's occupant roster, from
/// its faction's roster, and from the unit arena, in that order. Everything
/// else stays exactly as it was.
fn remove_unit(game: &mut Game, faction_id: Gid, uid: Gid)
    requires
        old(game).inv(),
        old(game).factions@.contains(faction_id),
        old(game).units@.contains(uid),
        old(game).factions@.at(faction_id).units@.contains(uid),
    ensures
        final(game).inv(),
        !final(game).units@.contains(uid),
        forall|x: Gid|
            x != uid ==> final(game).units@.contains(x) == old(game).units@.contains(x),
        forall|x: Gid|
            x != uid && old(game).units@.contains(x) ==> final(game).units@.at(x) == old(game).units@.at(x),
        forall|x: Gid| final(game).factions@.contains(x) == old(game).factions@.contains(x),
        forall|x: Gid|
            x != faction_id && old(game).factions@.contains(x) ==> final(game).factions@.at(x)
                == old(game).factions@.at(x),
        final(game).factions@.at(faction_id).name == old(game).factions@.at(faction_id).name,
        !final(game).factions@.at(faction_id).units@.contains(uid),
        forall|x: Gid|
            x != uid ==> (final(game).factions@.at(faction_id).units@.contains(x) <==> old(game).factions@.at(faction_id).units@.contains(x)),
        forall|x: Gid| final(game).areas@.contains(x) == old(game).areas@.contains(x),
        final(game).weapons == old(game).weapons,
        final(game).world == old(game).world,
        final(game).turn_queue == old(game).turn_queue,
        final(game).current_faction_id == old(game).current_faction_id,
        final(game).selected_unit_id == old(game).selected_unit_id,
        final(game).logger == old(game).logger,
        final(game).menus == old(game).menus,
        final(game).menu_id == old(game).menu_id,
        final(game).item_id == old(game).item_id,
        final(game).menu_changed == old(game).menu_changed,
        final(game).commands_menu_id == old(game).commands_menu_id,
        final(game).select_menu_id == old(game).select_menu_id,
        final(game).attack_menu_id == old(game).attack_menu_id,
        final(game).move_menu_id == old(game).move_menu_id,
{
    let ghost g0 = *game;
    let area_id = match game.units.get(uid) {
        Some(unit) => unit.area_id,
        None => vstd::pervasive::unreached(),
    };

    // Leave the area's occupant roster.
    let area = game.areas.get_mut(area_id);
    crate::gid::remove_gid(&mut area.units, uid);
    proof {
        assert(g0.area_ok(area_id));
        let a1 = game.areas@.at(area_id);
        assert forall|k: int| 0 <= k < a1.units@.len() implies g0.units@.contains(
            #[trigger] a1.units@[k],
        ) && g0.units@.at(a1.units@[k]).area_id == area_id by {
            assert(g0.areas@.at(area_id).units@.contains(a1.units@[k]));
            let j = choose|j: int|
                0 <= j < g0.areas@.at(area_id).units@.len() && g0.areas@.at(area_id).units@[j]
                    == a1.units@[k];
        }
        lemma_inv_area_update(g0, *game, area_id);
    }
    let ghost g1 = *game;

    // Leave the faction's roster.
    let faction = game.factions.get_mut(faction_id);
    crate::gid::remove_gid(&mut faction.units, uid);
    proof {
        assert(g1.faction_ok(faction_id));
        let f1 = game.factions@.at(faction_id);
        assert forall|k: int| 0 <= k < f1.units@.len() implies g1.units@.contains(
            #[trigger] f1.units@[k],
        ) && g1.units@.at(f1.units@[k]).faction_id == faction_id by {
            assert(g1.factions@.at(faction_id).units@.contains(f1.units@[k]));
            let j = choose|j: int|
                0 <= j < g1.factions@.at(faction_id).units@.len() && g1.factions@.at(
                    faction_id,
                ).units@[j] == f1.units@[k];
        }
        lemma_inv_faction_update(g1, *game, faction_id);
    }
    let ghost g2 = *game;

    // Vacate the unit's slot; its handle goes stale for good.
    game.units.remove(uid);
    proof {
        assert forall|f: Gid| #[trigger] g2.factions@.contains(f) implies !g2.factions@.at(
            f,
        ).units@.contains(uid) by {
            if f != faction_id {
                if g2.factions@.at(f).units@.contains(uid) {
                    assert(g0.faction_ok(f));
                    let j = choose|j: int|
                        0 <= j < g2.factions@.at(f).units@.len() && g2.factions@.at(f).units@[j]
                            == uid;
                    assert(g0.units@.at(uid).faction_id == f);
                    let j2 = choose|j2: int|
                        0 <= j2 < g0.factions@.at(faction_id).units@.len() && g0.factions@.at(
                            faction_id,
                        ).units@[j2] == uid;
                    assert(g0.faction_ok(faction_id));
                    assert(g0.units@.at(uid).faction_id == faction_id);
                }
            }
        }
        assert forall|a: Gid| #[trigger] g2.areas@.contains(a) implies !g2.areas@.at(
            a,
        ).units@.contains(uid) by {
            if a != area_id {
                if g2.areas@.at(a).units@.contains(uid) {
                    assert(g0.area_ok(a));
                    assert(g2.areas@.at(a) == g0.areas@.at(a));
                    let j = choose|j: int|
                        0 <= j < g2.areas@.at(a).units@.len() && g2.areas@.at(a).units@[j] == uid;
                    assert(g0.units@.at(uid).area_id == a);
                }
            }
        }
        lemma_inv_unit_removed(g2, *game, uid);
    }
}

/// Prunes the fallen from play. In one pass: every roster unit whose health
/// has reached zero is removed from its area, its faction and the unit
/// arena; a faction whose units have all fallen is then removed from the
/// faction arena and from the turn queue, with its defeat narrated. Living
/// units, surviving factions and everything else keep their values.
pub fn prune(game: &mut Game)
    requires
        old(game).inv(),
    ensures
        final(game).inv(),
        forall|x: Gid|
            #[trigger] final(game).units@.contains(x) ==> old(game).units@.contains(x) && final(game).units@.at(x) == old(game).units@.at(x),
        forall|x: Gid|
            old(game).units@.contains(x) && old(game).units@.at(x).health.spec_val() != 0 ==> final(game).units@.contains(x),
        forall|f: Gid| final(game).factions@.contains(f) ==> old(game).factions@.contains(f),
        forall|f: Gid|
            #[trigger] old(game).factions@.contains(f) ==> (final(game).factions@.contains(f)
                <==> !old(game).spec_all_dead(f)),
        forall|f: Gid|
            final(game).turn_queue@.contains(f) <==> (old(game).turn_queue@.contains(f) && !(old(game).factions@.contains(f) && old(game).spec_all_dead(f))),
        forall|f: Gid|
            #[trigger] final(game).factions@.contains(f) ==> final(game).factions@.at(f).name
                == old(game).factions@.at(f).name,
        forall|x: Gid| final(game).areas@.contains(x) == old(game).areas@.contains(x),
        final(game).weapons == old(game).weapons,
        final(game).world == old(game).world,
        final(game).current_faction_id == old(game).current_faction_id,
        final(game).selected_unit_id == old(game).selected_unit_id,
        final(game).logger.messages@.len() >= old(game).logger.messages@.len(),
        final(game).menus == old(game).menus,
        final(game).menu_id == old(game).menu_id,
        final(game).item_id == old(game).item_id,
        final(game).menu_changed == old(game).menu_changed,
        forall|f: Gid, k: int|
            #![trigger old(game).factions@.at(f).units@[k]]
            old(game).factions@.contains(f) && 0 <= k < old(game).factions@.at(f).units@.len()
                && old(game).units@.at(old(game).factions@.at(f).units@[k]).health.spec_val() == 0
                ==> !final(game).units@.contains(old(game).factions@.at(f).units@[k]),
        forall|u: Gid|
            !(#[trigger] final(game).units@.contains(u)) ==> (forall|a: Gid|
                #[trigger] final(game).areas@.contains(a) ==> !final(game).areas@.at(
                    a,
                ).units@.contains(u)) && (forall|f2: Gid|
                #[trigger] final(game).factions@.contains(f2) ==> !final(game).factions@.at(
                    f2,
                ).units@.contains(u)),
        old(game).turn_queue@.len() > 0 && !(old(game).factions@.contains(old(game).turn_queue@[0])
            && old(game).spec_all_dead(old(game).turn_queue@[0])) ==> final(game).turn_queue@.len()
            > 0 && final(game).turn_queue@[0] == old(game).turn_queue@[0],
        final(game).logger.messages@.subrange(0, old(game).logger.messages@.len() as int) == old(game).logger.messages@,
        forall|f: Gid|
            #![trigger old(game).spec_all_dead(f)]
            old(game).factions@.contains(f) && old(game).spec_all_dead(f) ==> exists|m: int|
                old(game).logger.messages@.len() <= m < final(game).logger.messages@.len() && (
                #[trigger] final(game).logger.messages@[m]).tokens@.len() == 2 && final(game).logger.messages@[m].tokens@[0].content@ == old(game).factions@.at(f).name@
                && final(game).logger.messages@[m].tokens@[1].content@ == " was defeated!"@,
{
    let ghost g0 = *game;
    let mut defeated: Vec<Gid> = Vec::new();
    let fids = game.factions.gids();

    // First pass: bury the fallen, faction by faction, and note which
    // factions have no one left.
    let mut i: usize = 0;
    while i < fids.len()
        invariant
            g0.inv(),
            game.inv(),
            i <= fids@.len(),
            forall|x: Gid| fids@.contains(x) <==> g0.factions@.contains(x),
            forall|k: int| 0 <= k < fids@.len() ==> g0.factions@.contains(#[trigger] fids@[k]),
            forall|k1: int, k2: int|
                0 <= k1 < k2 < fids@.len() ==> fids@[k1].index < fids@[k2].index,
            forall|x: Gid| game.factions@.contains(x) == g0.factions@.contains(x),
            forall|j: int|
                i <= j < fids@.len() ==> game.factions@.at(#[trigger] fids@[j]) == g0.factions@.at(
                    fids@[j],
                ),
            forall|x: Gid|
                #[trigger] game.factions@.contains(x) ==> game.factions@.at(x).name
                    == g0.factions@.at(x).name,
            forall|x: Gid|
                #[trigger] game.units@.contains(x) ==> g0.units@.contains(x) && game.units@.at(x)
                    == g0.units@.at(x),
            forall|x: Gid|
                g0.units@.contains(x) && g0.units@.at(x).health.spec_val() != 0
                    ==> game.units@.contains(x),
            forall|j: int, k: int|
                #![trigger g0.factions@.at(fids@[j]).units@[k]]
                0 <= j < i && 0 <= k < g0.factions@.at(fids@[j]).units@.len() && g0.units@.at(
                    g0.factions@.at(fids@[j]).units@[k],
                ).health.spec_val() == 0 ==> !game.units@.contains(
                    g0.factions@.at(fids@[j]).units@[k],
                ),
            forall|k: int|
                0 <= k < defeated@.len() ==> g0.factions@.contains(#[trigger] defeated@[k])
                    && g0.spec_all_dead(defeated@[k]),
            forall|k: int| #![trigger defeated@[k]]
                0 <= k < defeated@.len() ==> exists|j: int|
                    0 <= j < i && #[trigger] fids@[j] == defeated@[k],
            forall|k1: int, k2: int|
                0 <= k1 < k2 < defeated@.len() ==> defeated@[k1] != defeated@[k2],
            forall|j: int|
                0 <= j < i && g0.spec_all_dead(#[trigger] fids@[j]) ==> defeated@.contains(
                    fids@[j],
                ),
            forall|x: Gid| game.areas@.contains(x) == g0.areas@.contains(x),
            game.weapons == g0.weapons,
            game.world == g0.world,
            game.turn_queue == g0.turn_queue,
            game.current_faction_id == g0.current_faction_id,
            game.selected_unit_id == g0.selected_unit_id,
            game.logger == g0.logger,
            game.menus == g0.menus,
            game.menu_id == g0.menu_id,
            game.item_id == g0.item_id,
            game.menu_changed == g0.menu_changed,
            game.commands_menu_id == g0.commands_menu_id,
            game.select_menu_id == g0.select_menu_id,
            game.attack_menu_id == g0.attack_menu_id,
            game.move_menu_id == g0.move_menu_id,
        decreases fids@.len() - i,
    {
        let fid = fids[i];
        proof {
            assert(fids@.contains(fid)) by {
                assert(fids@[i as int] == fid);
            }
            assert(game.factions@.at(fid) == g0.factions@.at(fid));
            assert(game.faction_ok(fid));
        }

        // Collect this faction's dead from its current roster.
        let dead = match game.factions.get(fid) {
            Some(faction) => collect_dead(&game.units, &faction.units),
            None => vstd::pervasive::unreached(),
        };
        proof {
            assert forall|k: int|
                0 <= k < dead@.len() implies g0.factions@.at(fid).units@.contains(
                #[trigger] dead@[k],
            ) && g0.units@.at(dead@[k]).health.spec_val() == 0 && g0.units@.contains(
                dead@[k],
            ) by {
                let r = g0.factions@.at(fid).units@;
                assert(r.contains(dead@[k]));
                let j = choose|j: int| 0 <= j < r.len() && r[j] == dead@[k];
            }
        }

        // Bury them one by one.
        let ghost g_outer = *game;
        let mut j: usize = 0;
        while j < dead.len()
            invariant
                g0.inv(),
                g_outer.inv(),
                game.inv(),
                j <= dead@.len(),
                fids@.contains(fid),
                g0.factions@.contains(fid),
                forall|x: Gid| game.factions@.contains(x) == g0.factions@.contains(x),
                // what collect_dead established, in terms of the pass's start
                forall|k: int|
                    0 <= k < dead@.len() ==> g0.factions@.at(fid).units@.contains(
                        #[trigger] dead@[k],
                    ) && g0.units@.at(dead@[k]).health.spec_val() == 0 && g0.units@.contains(
                        dead@[k],
                    ),
                forall|x: Gid|
                    g0.factions@.at(fid).units@.contains(x) && g0.units@.at(x).health.spec_val()
                        == 0 ==> dead@.contains(x),
                forall|k1: int, k2: int|
                    0 <= k1 < k2 < dead@.len() ==> dead@[k1] != dead@[k2],
                // burial progress
                forall|k: int| j <= k < dead@.len() ==> game.units@.contains(#[trigger] dead@[k]),
                forall|k: int| 0 <= k < j ==> !game.units@.contains(#[trigger] dead@[k]),
                forall|j2: int, k: int|
                    #![trigger g0.factions@.at(fids@[j2]).units@[k]]
                    0 <= j2 < i && 0 <= k < g0.factions@.at(fids@[j2]).units@.len() && g0.units@.at(
                        g0.factions@.at(fids@[j2]).units@[k],
                    ).health.spec_val() == 0 ==> !game.units@.contains(
                        g0.factions@.at(fids@[j2]).units@[k],
                    ),
                forall|x: Gid| #![all_triggers]
                    game.factions@.at(fid).units@.contains(x) <==> (g0.factions@.at(
                        fid,
                    ).units@.contains(x) && !dead@.subrange(0, j as int).contains(x)),
                // the wider world
                forall|x: Gid|
                    x != fid && g0.factions@.contains(x) ==> game.factions@.at(x)
                        == g_outer.factions@.at(x),
                game.factions@.at(fid).name == g0.factions@.at(fid).name,
                forall|x: Gid|
                    #[trigger] game.units@.contains(x) ==> g0.units@.contains(x) && game.units@.at(
                        x,
                    ) == g0.units@.at(x),
                forall|x: Gid|
                    g0.units@.contains(x) && g0.units@.at(x).health.spec_val() != 0
                        ==> game.units@.contains(x),
                forall|x: Gid| game.areas@.contains(x) == g0.areas@.contains(x),
                game.weapons == g0.weapons,
                game.world == g0.world,
                game.turn_queue == g0.turn_queue,
                game.current_faction_id == g0.current_faction_id,
                game.selected_unit_id == g0.selected_unit_id,
                game.logger == g0.logger,
                game.menus == g0.menus,
                game.menu_id == g0.menu_id,
                game.item_id == g0.item_id,
                game.menu_changed == g0.menu_changed,
                game.commands_menu_id == g0.commands_menu_id,
                game.select_menu_id == g0.select_menu_id,
                game.attack_menu_id == g0.attack_menu_id,
                game.move_menu_id == g0.move_menu_id,
            decreases dead@.len() - j,
        {
            let uid = dead[j];
            let ghost g_pre = *game;
            proof {
                assert(game.units@.contains(uid)) by {
                    assert(dead@[j as int] == uid);
                }
                assert(game.factions@.at(fid).units@.contains(uid)) by {
                    assert(g0.factions@.at(fid).units@.contains(uid));
                    if dead@.subrange(0, j as int).contains(uid) {
                        let k = choose|k: int|
                            0 <= k < j && dead@.subrange(0, j as int)[k] == uid;
                        assert(dead@[k] == dead@[j as int]);
                    }
                }
            }
            remove_unit(game, fid, uid);
            proof {
                assert forall|x: Gid|
                    game.factions@.at(fid).units@.contains(x) <==> (g0.factions@.at(
                        fid,
                    ).units@.contains(x) && !dead@.subrange(0, j + 1 as int).contains(x)) by {
                    if dead@.subrange(0, j + 1 as int).contains(x) {
                        let k = choose|k: int|
                            0 <= k < j + 1 && #[trigger] dead@.subrange(0, j + 1 as int)[k] == x;
                        if k < j {
                            assert(dead@.subrange(0, j as int)[k] == x);
                        } else {
                            assert(x == uid);
                        }
                    }
                    if dead@.subrange(0, j as int).contains(x) {
                        let k = choose|k: int|
                            0 <= k < j && dead@.subrange(0, j as int)[k] == x;
                        assert(dead@.subrange(0, j + 1 as int)[k] == x);
                    }
                    if x == uid {
                        assert(dead@.subrange(0, j + 1 as int)[j as int] == uid);
                    }
                }
                assert forall|k: int| j + 1 <= k < dead@.len() implies game.units@.contains(
                    #[trigger] dead@[k],
                ) by {
                    assert(dead@[k] != uid);
                }
            }
            j = j + 1;
        }

        // No one left: the faction is defeated.
        let is_empty = match game.factions.get(fid) {
            Some(faction) => faction.units.len() == 0,
            None => vstd::pervasive::unreached(),
        };
        proof {
            assert(dead@.subrange(0, j as int) =~= dead@);
            let r0 = g0.factions@.at(fid).units@;
            let r1 = game.factions@.at(fid).units@;
            assert forall|x: Gid| r1.contains(x) <==> (r0.contains(x) && !dead@.contains(x)) by {
                assert(game.factions@.at(fid).units@.contains(x) <==> (g0.factions@.at(
                    fid,
                ).units@.contains(x) && !dead@.subrange(0, j as int).contains(x)));
            }
            if g0.spec_all_dead(fid) {
                assert(r1.len() == 0) by {
                    if r1.len() > 0 {
                        let x = r1[0];
                        assert(r1.contains(x));
                        assert(r0.contains(x) && !dead@.contains(x));
                        let k2 = choose|k2: int| 0 <= k2 < r0.len() && r0[k2] == x;
                        assert(g0.units@.at(r0[k2]).health.spec_val() == 0);
                        assert(dead@.contains(x));
                    }
                }
            } else {
                let k2 = choose|k2: int|
                    0 <= k2 < r0.len() && g0.units@.at(#[trigger] r0[k2]).health.spec_val() != 0;
                assert(r1.contains(r0[k2])) by {
                    if dead@.contains(r0[k2]) {
                        let d = choose|d: int| 0 <= d < dead@.len() && dead@[d] == r0[k2];
                    }
                    assert(r0.contains(r0[k2]));
                }
                assert(r1.len() > 0);
            }
            assert forall|k2: int|
                0 <= k2 < g0.factions@.at(fid).units@.len() && g0.units@.at(
                    #[trigger] g0.factions@.at(fid).units@[k2],
                ).health.spec_val() == 0 implies !game.units@.contains(
                g0.factions@.at(fid).units@[k2],
            ) by {
                let u = g0.factions@.at(fid).units@[k2];
                assert(g0.factions@.at(fid).units@.contains(u)) by {
                    assert(g0.factions@.at(fid).units@[k2] == u);
                }
                assert(dead@.contains(u));
                let d = choose|d: int| 0 <= d < dead@.len() && dead@[d] == u;
            }
            assert forall|x: Gid| #[trigger] game.factions@.contains(x) implies game.factions@.at(
                x,
            ).name == g0.factions@.at(x).name by {
                if x != fid {
                    assert(g0.factions@.contains(x));
                    assert(g_outer.factions@.contains(x));
                    assert(game.factions@.at(x) == g_outer.factions@.at(x));
                    assert(g_outer.factions@.at(x).name == g0.factions@.at(x).name);
                }
            }
        }
        if is_empty {
            let ghost defeated0 = defeated@;
            defeated.push(fid);
            proof {
                broadcast use vstd::seq_lib::lemma_seq_contains_after_push;

                assert forall|k: int| #![trigger defeated@[k]]
                    0 <= k < defeated@.len() implies exists|j2: int|
                    0 <= j2 < i + 1 && #[trigger] fids@[j2] == defeated@[k] by {
                    if k < defeated0.len() {
                        assert(defeated@[k] == defeated0[k]);
                        let j2 = choose|j2: int| 0 <= j2 < i && fids@[j2] == defeated0[k];
                        assert(fids@[j2] == defeated@[k]);
                    } else {
                        assert(defeated@[k] == fid);
                        assert(fids@[i as int] == defeated@[k]);
                    }
                }
                assert forall|k1: int, k2: int|
                    0 <= k1 < k2 < defeated@.len() implies defeated@[k1] != defeated@[k2] by {
                    if k2 == defeated0.len() as int {
                        assert(defeated@[k1] == defeated0[k1]);
                        let j2 = choose|j2: int| 0 <= j2 < i && fids@[j2] == defeated0[k1];
                        assert(fids@[j2].index < fids@[i as int].index);
                    }
                }
            }
        }
        proof {
            assert forall|j2: int|
                0 <= j2 < i + 1 && g0.spec_all_dead(#[trigger] fids@[j2]) implies defeated@.contains(
                fids@[j2],
            ) by {
                broadcast use vstd::seq_lib::lemma_seq_contains_after_push;

                if j2 < i {
                    assert(defeated@.contains(fids@[j2]));
                }
            }
            assert forall|j2: int|
                i + 1 <= j2 < fids@.len() implies game.factions@.at(#[trigger] fids@[j2])
                    == g0.factions@.at(fids@[j2]) by {
                assert(fids@[j2].index > fids@[i as int].index);
            }
            assert forall|j2: int, k2: int|
                #![trigger g0.factions@.at(fids@[j2]).units@[k2]]
                0 <= j2 < i + 1 && 0 <= k2 < g0.factions@.at(fids@[j2]).units@.len()
                    && g0.units@.at(g0.factions@.at(fids@[j2]).units@[k2]).health.spec_val() == 0
                    implies !game.units@.contains(g0.factions@.at(fids@[j2]).units@[k2]) by {
                if j2 == i {
                    assert(fids@[i as int] == fid);
                }
            }
        }
        i = i + 1;
    }

    // Second pass: defeated factions leave the turn queue and the arena.
    let ghost g_mid = *game;
    proof {
        assert forall|f: Gid, k: int|
            #![trigger g0.factions@.at(f).units@[k]]
            g0.factions@.contains(f) && 0 <= k < g0.factions@.at(f).units@.len() && g0.units@.at(
                g0.factions@.at(f).units@[k],
            ).health.spec_val() == 0 implies !g_mid.units@.contains(
            g0.factions@.at(f).units@[k],
        ) by {
            assert(fids@.contains(f));
            let j = choose|j: int| 0 <= j < fids@.len() && fids@[j] == f;
        }
        assert forall|f: Gid| #[trigger] defeated@.contains(f) implies g0.factions@.contains(f)
            && g0.spec_all_dead(f) by {
            let k = choose|k: int| 0 <= k < defeated@.len() && defeated@[k] == f;
        }
        assert forall|f: Gid|
            g0.factions@.contains(f) && g0.spec_all_dead(f) implies defeated@.contains(f) by {
            assert(fids@.contains(f));
            let j = choose|j: int| 0 <= j < fids@.len() && fids@[j] == f;
        }
    }
    let mut k: usize = 0;
    while k < defeated.len()
        invariant
            g0.inv(),
            g_mid.inv(),
            game.inv(),
            k <= defeated@.len(),
            forall|f: Gid|
                #[trigger] defeated@.contains(f) <==> (g0.factions@.contains(f)
                    && g0.spec_all_dead(f)),
            forall|k1: int, k2: int|
                0 <= k1 < k2 < defeated@.len() ==> defeated@[k1] != defeated@[k2],
            forall|x: Gid| g_mid.factions@.contains(x) == g0.factions@.contains(x),
            forall|x: Gid|
                #[trigger] g_mid.factions@.contains(x) ==> g_mid.factions@.at(x).name
                    == g0.factions@.at(x).name,
            g_mid.turn_queue == g0.turn_queue,
            forall|x: Gid|
                #[trigger] game.factions@.contains(x) <==> (g_mid.factions@.contains(x)
                    && !defeated@.subrange(0, k as int).contains(x)),
            forall|x: Gid|
                #[trigger] game.factions@.contains(x) ==> game.factions@.at(x)
                    == g_mid.factions@.at(x),
            forall|x: Gid|
                game.turn_queue@.contains(x) <==> (g_mid.turn_queue@.contains(x)
                    && !defeated@.subrange(0, k as int).contains(x)),
            game.units == g_mid.units,
            game.weapons == g_mid.weapons,
            game.areas == g_mid.areas,
            game.world == g_mid.world,
            game.current_faction_id == g_mid.current_faction_id,
            game.selected_unit_id == g_mid.selected_unit_id,
            game.logger.messages@.len() >= g_mid.logger.messages@.len(),
            g_mid.turn_queue@.len() > 0 && !(g0.factions@.contains(g_mid.turn_queue@[0])
                && g0.spec_all_dead(g_mid.turn_queue@[0])) ==> game.turn_queue@.len() > 0
                && game.turn_queue@[0] == g_mid.turn_queue@[0],
            game.logger.messages@.subrange(0, g_mid.logger.messages@.len() as int)
                == g_mid.logger.messages@,
            forall|k2: int| #![trigger defeated@[k2]]
                0 <= k2 < k ==> exists|m: int|
                    g_mid.logger.messages@.len() <= m < game.logger.messages@.len() && (
                    #[trigger] game.logger.messages@[m]).tokens@.len() == 2
                    && game.logger.messages@[m].tokens@[0].content@ == g0.factions@.at(
                        defeated@[k2],
                    ).name@ && game.logger.messages@[m].tokens@[1].content@ == " was defeated!"@,
            game.menus == g_mid.menus,
            game.menu_id == g_mid.menu_id,
            game.item_id == g_mid.item_id,
            game.menu_changed == g_mid.menu_changed,
            game.commands_menu_id == g_mid.commands_menu_id,
            game.select_menu_id == g_mid.select_menu_id,
            game.attack_menu_id == g_mid.attack_menu_id,
            game.move_menu_id == g_mid.move_menu_id,
        decreases defeated@.len() - k,
    {
        let fid = defeated[k];
        proof {
            assert(defeated@.contains(fid)) by {
                assert(defeated@[k as int] == fid);
            }
            assert(game.factions@.contains(fid)) by {
                if defeated@.subrange(0, k as int).contains(fid) {
                    let k2 = choose|k2: int|
                        0 <= k2 < k && defeated@.subrange(0, k as int)[k2] == fid;
                    assert(defeated@[k2] == defeated@[k as int]);
                }
            }
        }

        // Narrate the defeat.
        let ghost log_before = game.logger.messages@;
        let builder = match game.factions.get(fid) {
            Some(faction) => game.logger.message().with(
                faction.name.as_str(),
                logger::name_colour(),
            ),
            None => vstd::pervasive::unreached(),
        };
        let ghost first_tokens = builder.tokens@;
        let builder = builder.with(" was defeated!", logger::text_colour());
        builder.build(&mut game.logger);
        proof {
            let msgs = game.logger.messages@;
            let t = msgs.last().tokens@;
            assert(t.len() == 2);
            assert(t[1].content@ == " was defeated!"@);
            assert(t.subrange(0, 1) == first_tokens);
            assert(t.subrange(0, 1)[0] == t[0]);
            assert(first_tokens.last() == first_tokens[0]);
            assert(game.factions@.at(fid) == g_mid.factions@.at(fid));
            assert(t[0].content@ == g0.factions@.at(fid).name@);
            assert(msgs[log_before.len() as int] == msgs.last());
            assert(msgs.subrange(0, g_mid.logger.messages@.len() as int) =~= g_mid
                .logger.messages@) by {
                assert(msgs.subrange(0, log_before.len() as int) == log_before);
                assert forall|m: int| 0 <= m < g_mid.logger.messages@.len() implies msgs[m]
                    == g_mid.logger.messages@[m] by {
                    assert(msgs.subrange(0, log_before.len() as int)[m] == msgs[m]);
                    assert(log_before.subrange(0, g_mid.logger.messages@.len() as int)[m]
                        == log_before[m]);
                }
            }
        }

        // Leave the turn queue, then the arena.
        let ghost g_q = *game;
        remove_from_queue(&mut game.turn_queue, fid);
        proof {
            assert forall|q: int| 0 <= q < game.turn_queue@.len() implies game.factions@.contains(
                #[trigger] game.turn_queue@[q],
            ) by {
                assert(g_q.turn_queue@.contains(game.turn_queue@[q]));
                let w = choose|w: int|
                    0 <= w < g_q.turn_queue@.len() && g_q.turn_queue@[w] == game.turn_queue@[q];
            }
            assert(game.inv());
            if g_mid.turn_queue@.len() > 0 && !(g0.factions@.contains(g_mid.turn_queue@[0])
                && g0.spec_all_dead(g_mid.turn_queue@[0])) {
                assert(g_q.turn_queue@[0] == g_mid.turn_queue@[0]);
                assert(g_q.turn_queue@[0] != fid);
                assert(game.turn_queue@[0] == g_q.turn_queue@[0]);
            }
        }
        let ghost g_f = *game;
        game.factions.remove(fid);
        proof {
            lemma_inv_faction_removed(g_f, *game, fid);
            assert forall|x: Gid|
                #[trigger] game.factions@.contains(x) <==> (g_mid.factions@.contains(x)
                    && !defeated@.subrange(0, k + 1 as int).contains(x)) by {
                if defeated@.subrange(0, k + 1 as int).contains(x) {
                    let k2 = choose|k2: int|
                        0 <= k2 < k + 1 && #[trigger] defeated@.subrange(0, k + 1 as int)[k2]
                            == x;
                    if k2 < k {
                        assert(defeated@.subrange(0, k as int)[k2] == x);
                    } else {
                        assert(x == fid);
                    }
                }
                if defeated@.subrange(0, k as int).contains(x) {
                    let k2 = choose|k2: int|
                        0 <= k2 < k && defeated@.subrange(0, k as int)[k2] == x;
                    assert(defeated@.subrange(0, k + 1 as int)[k2] == x);
                }
                if x == fid {
                    assert(defeated@.subrange(0, k + 1 as int)[k as int] == fid);
                }
            }
            assert forall|x: Gid|
                game.turn_queue@.contains(x) <==> (g_mid.turn_queue@.contains(x)
                    && !defeated@.subrange(0, k + 1 as int).contains(x)) by {
                if defeated@.subrange(0, k + 1 as int).contains(x) {
                    let k2 = choose|k2: int|
                        0 <= k2 < k + 1 && #[trigger] defeated@.subrange(0, k + 1 as int)[k2]
                            == x;
                    if k2 < k {
                        assert(defeated@.subrange(0, k as int)[k2] == x);
                    } else {
                        assert(x == fid);
                    }
                }
                if defeated@.subrange(0, k as int).contains(x) {
                    let k2 = choose|k2: int|
                        0 <= k2 < k && defeated@.subrange(0, k as int)[k2] == x;
                    assert(defeated@.subrange(0, k + 1 as int)[k2] == x);
                }
                if x == fid {
                    assert(defeated@.subrange(0, k + 1 as int)[k as int] == fid);
                }
            }
        }
        proof {
            assert forall|k2: int| #![trigger defeated@[k2]] 0 <= k2 < k + 1 implies exists|m: int|
                g_mid.logger.messages@.len() <= m < game.logger.messages@.len() && (
                #[trigger] game.logger.messages@[m]).tokens@.len() == 2 && game.logger.messages@[
                m
            ].tokens@[0].content@ == g0.factions@.at(defeated@[k2]).name@
                && game.logger.messages@[m].tokens@[1].content@ == " was defeated!"@ by {
                if k2 < k {
                    let m = choose|m: int|
                        g_mid.logger.messages@.len() <= m < log_before.len() && (
                        #[trigger] log_before[m]).tokens@.len() == 2 && log_before[m].tokens@[0]
                            .content@ == g0.factions@.at(defeated@[k2]).name@ && log_before[m]
                            .tokens@[1].content@ == " was defeated!"@;
                    assert(game.logger.messages@.subrange(0, log_before.len() as int)[m]
                        == game.logger.messages@[m]);
                    assert(game.logger.messages@[m] == log_before[m]);
                } else {
                    assert(defeated@[k2] == fid);
                    let m = log_before.len() as int;
                    assert(game.logger.messages@[m] == game.logger.messages@.last());
                    assert(game.logger.messages@[m].tokens@.len() == 2);
                }
            }
        }
        k = k + 1;
    }
    proof {
        assert(defeated@.subrange(0, defeated@.len() as int) =~= defeated@);
        assert forall|f: Gid|
            #[trigger] old(game).factions@.contains(f) implies (game.factions@.contains(f)
            <==> !old(game).spec_all_dead(f)) by {
            if defeated@.contains(f) {
            }
        }
        // The fallen have left the unit arena …
        assert forall|f: Gid, k: int|
            #![trigger g0.factions@.at(f).units@[k]]
            g0.factions@.contains(f) && 0 <= k < g0.factions@.at(f).units@.len() && g0.units@.at(
                g0.factions@.at(f).units@[k],
            ).health.spec_val() == 0 implies !game.units@.contains(
            g0.factions@.at(f).units@[k],
        ) by {
            assert(!g_mid.units@.contains(g0.factions@.at(f).units@[k]));
        }
        // … and an absent unit stands in no occupant or faction roster.
        assert forall|u: Gid| !(#[trigger] game.units@.contains(u)) implies (forall|a: Gid|
            #[trigger] game.areas@.contains(a) ==> !game.areas@.at(a).units@.contains(u)) && (
        forall|f2: Gid|
            #[trigger] game.factions@.contains(f2) ==> !game.factions@.at(f2).units@.contains(
                u,
            )) by {
            assert forall|a: Gid| #[trigger] game.areas@.contains(a) implies !game.areas@.at(
                a,
            ).units@.contains(u) by {
                if game.areas@.at(a).units@.contains(u) {
                    assert(game.area_ok(a));
                    let j = choose|j: int|
                        0 <= j < game.areas@.at(a).units@.len() && game.areas@.at(a).units@[j]
                            == u;
                }
            }
            assert forall|f2: Gid| #[trigger] game.factions@.contains(f2) implies !game
                .factions@.at(f2).units@.contains(u) by {
                if game.factions@.at(f2).units@.contains(u) {
                    assert(game.faction_ok(f2));
                    let j = choose|j: int|
                        0 <= j < game.factions@.at(f2).units@.len() && game.factions@.at(
                            f2,
                        ).units@[j] == u;
                }
            }
        }
        // The log keeps what it had and records every defeat.
        assert(g_mid.logger == g0.logger);
        assert(game.logger.messages@.subrange(0, g0.logger.messages@.len() as int) =~= g0
            .logger.messages@);
        assert forall|f: Gid|
            #![trigger g0.spec_all_dead(f)]
            g0.factions@.contains(f) && g0.spec_all_dead(f) implies exists|m: int|
                g0.logger.messages@.len() <= m < game.logger.messages@.len() && (
                #[trigger] game.logger.messages@[m]).tokens@.len() == 2 && game.logger.messages@[
                m
            ].tokens@[0].content@ == g0.factions@.at(f).name@ && game.logger.messages@[
                m
            ].tokens@[1].content@ == " was defeated!"@ by {
            assert(defeated@.contains(f));
            let k2 = choose|k2: int| 0 <= k2 < defeated@.len() && defeated@[k2] == f;
        }
    }
}

/// One unit's share of the start-of-turn distribution pass for the acting
/// faction `cur`: members regain `speed` stamina with a fresh tracker;
/// everyone else gets all delta trackers cleared — there is no passive
/// healing — and keeps every value.
pub open spec fn stamina_tick(u0: crate::unit::Unit, u1: crate::unit::Unit, cur: Gid) -> bool {
    &&& u1.name == u0.name
    &&& u1.role == u0.role
    &&& u1.faction_id == u0.faction_id
    &&& u1.area_id == u0.area_id
    &&& u1.weapon_id == u0.weapon_id
    &&& u1.accuracy == u0.accuracy
    &&& u1.speed == u0.speed
    &&& u1.stamina.spec_max() == u0.stamina.spec_max()
    &&& if u0.faction_id == cur {
        &&& u1.stamina.spec_val() == u0.stamina.spec_clamped(u0.speed as int)
        &&& u1.stamina.spec_change() == u0.speed as i64
        &&& u1.health == u0.health
        &&& u1.armour == u0.armour
        &&& u1.shield == u0.shield
    } else {
        &&& u1.stamina.spec_val() == u0.stamina.spec_val()
        &&& u1.stamina.spec_change() == 0
        &&& u1.health.spec_val() == u0.health.spec_val()
        &&& u1.health.spec_max() == u0.health.spec_max()
        &&& u1.health.spec_change() == 0
        &&& u1.armour.spec_val() == u0.armour.spec_val()
        &&& u1.armour.spec_max() == u0.armour.spec_max()
        &&& u1.armour.spec_change() == 0
        &&& u1.shield.spec_val() == u0.shield.spec_val()
        &&& u1.shield.spec_max() == u0.shield.spec_max()
        &&& u1.shield.spec_change() == 0
    }
}

/// Regenerates stamina for the acting faction's units by their speed,
/// saturating at the maximum, and clears the delta trackers of everyone
/// else. With no acting faction, nothing happens at all.
pub fn distribute_stamina(game: &mut Game)
    requires
        old(game).inv(),
    ensures
        final(game).inv(),
        old(game).current_faction_id is None ==> *final(game) == *old(game),
        old(game).current_faction_id is Some ==> {
            let cur = old(game).current_faction_id->0;
            &&& forall|x: Gid| final(game).units@.contains(x) == old(game).units@.contains(x)
            &&& forall|x: Gid|
                #[trigger] old(game).units@.contains(x) ==> stamina_tick(
                    old(game).units@.at(x),
                    final(game).units@.at(x),
                    cur,
                )
            &&& final(game).factions == old(game).factions
            &&& final(game).weapons == old(game).weapons
            &&& final(game).areas == old(game).areas
            &&& final(game).world == old(game).world
            &&& final(game).turn_queue == old(game).turn_queue
            &&& final(game).current_faction_id == old(game).current_faction_id
            &&& final(game).selected_unit_id == old(game).selected_unit_id
            &&& final(game).logger == old(game).logger
            &&& final(game).menus == old(game).menus
            &&& final(game).menu_id == old(game).menu_id
            &&& final(game).item_id == old(game).item_id
            &&& final(game).menu_changed == old(game).menu_changed
        },
{
    if let Some(cur) = game.current_faction_id {
        let ghost g0 = *game;
        let ids = game.units.gids();
        let mut i: usize = 0;
        while i < ids.len()
            invariant
                g0.inv(),
                game.inv(),
                i <= ids@.len(),
                game.current_faction_id == Some(cur),
                forall|x: Gid| ids@.contains(x) <==> g0.units@.contains(x),
                forall|k: int| 0 <= k < ids@.len() ==> g0.units@.contains(#[trigger] ids@[k]),
                forall|k1: int, k2: int|
                    0 <= k1 < k2 < ids@.len() ==> ids@[k1].index < ids@[k2].index,
                forall|x: Gid| game.units@.contains(x) == g0.units@.contains(x),
                forall|j: int|
                    i <= j < ids@.len() ==> game.units@.at(#[trigger] ids@[j]) == g0.units@.at(
                        ids@[j],
                    ),
                forall|j: int|
                    0 <= j < i ==> stamina_tick(
                        g0.units@.at(#[trigger] ids@[j]),
                        game.units@.at(ids@[j]),
                        cur,
                    ),
                game.factions == g0.factions,
                game.weapons == g0.weapons,
                game.areas == g0.areas,
                game.world == g0.world,
                game.turn_queue == g0.turn_queue,
                game.selected_unit_id == g0.selected_unit_id,
                game.logger == g0.logger,
                game.menus == g0.menus,
                game.menu_id == g0.menu_id,
                game.item_id == g0.item_id,
                game.menu_changed == g0.menu_changed,
                game.commands_menu_id == g0.commands_menu_id,
                game.select_menu_id == g0.select_menu_id,
                game.attack_menu_id == g0.attack_menu_id,
                game.move_menu_id == g0.move_menu_id,
            decreases ids@.len() - i,
        {
            let uid = ids[i];
            let ghost g_pre = *game;
            proof {
                assert(ids@.contains(uid)) by {
                    assert(ids@[i as int] == uid);
                }
            }
            let unit = game.units.get_mut(uid);
            unit.stamina.clear_change();
            if unit.faction_id == cur {
                let speed = unit.speed;
                unit.stamina.change_by(speed as i64);
            } else {
                unit.health.clear_change();
                unit.armour.clear_change();
                unit.shield.clear_change();
            }
            proof {
                lemma_inv_unit_update(g_pre, *game, uid);
                assert forall|j: int| i + 1 <= j < ids@.len() implies game.units@.at(
                    #[trigger] ids@[j],
                ) == g0.units@.at(ids@[j]) by {
                    assert(ids@[j].index > uid.index);
                }
                assert forall|j: int| 0 <= j < i + 1 implies stamina_tick(
                    g0.units@.at(#[trigger] ids@[j]),
                    game.units@.at(ids@[j]),
                    cur,
                ) by {
                    if j < i {
                        assert(ids@[j].index < uid.index);
                    }
                }
            }
            i = i + 1;
        }
        proof {
            assert forall|x: Gid| #[trigger] g0.units@.contains(x) implies stamina_tick(
                g0.units@.at(x),
                game.units@.at(x),
                cur,
            ) by {
                assert(ids@.contains(x));
                let j = choose|j: int| 0 <= j < ids@.len() && ids@[j] == x;
            }
        }
    }
}

/// Rotates the turn queue once, on an already-pruned state: the front
/// faction becomes the acting one and rejoins the back of the queue. A queue
/// of one is the victory case — the survivor leaves the queue and nobody
/// acts any more; an empty queue leaves nobody acting.
fn advance_turn(game: &mut Game)
    requires
        old(game).inv(),
    ensures
        final(game).inv(),
        forall|f: Gid|
            #[trigger] final(game).turn_queue@.contains(f) ==> old(game).turn_queue@.contains(f),
        forall|x: Gid| final(game).factions@.contains(x) == old(game).factions@.contains(x),
        forall|x: Gid|
            old(game).factions@.contains(x) ==> final(game).factions@.at(x) == old(game).factions@.at(x),
        final(game).units == old(game).units,
        final(game).weapons == old(game).weapons,
        final(game).areas == old(game).areas,
        final(game).world == old(game).world,
        final(game).selected_unit_id == old(game).selected_unit_id,
        final(game).menus == old(game).menus,
        final(game).menu_id == old(game).menu_id,
        final(game).item_id == old(game).item_id,
        final(game).menu_changed == old(game).menu_changed,
        old(game).turn_queue@.len() == 0 ==> final(game).current_faction_id is None && final(game).turn_queue@.len() == 0,
        old(game).turn_queue@.len() == 1 ==> final(game).current_faction_id is None && final(game).turn_queue@.len() == 0,
        old(game).turn_queue@.len() > 1 ==> final(game).current_faction_id == Some(
            old(game).turn_queue@[0],
        ) && final(game).turn_queue@ == old(game).turn_queue@.subrange(
            1,
            old(game).turn_queue@.len() as int,
        ).push(old(game).turn_queue@[0]),
        final(game).logger.messages@.subrange(0, old(game).logger.messages@.len() as int) == old(game).logger.messages@,
        final(game).logger.messages@.len() >= old(game).logger.messages@.len(),
        old(game).turn_queue@.len() == 1 && old(game).factions@.contains(old(game).turn_queue@[0])
            ==> final(game).logger.messages@.len() == old(game).logger.messages@.len() + 1 && final(game).logger.messages@.last().tokens@.len() == 2 && final(game).logger.messages@.last().tokens@[0].content@ == old(game).factions@.at(
            old(game).turn_queue@[0],
        ).name@ && final(game).logger.messages@.last().tokens@[1].content@ == " is victorious!"@,
{
    let ghost gp = *game;
    let candidate = game.turn_queue.pop_front();
    if let Some(faction_id) = candidate {
        proof {
            assert(gp.turn_queue@.contains(faction_id)) by {
                assert(gp.turn_queue@[0] == faction_id);
            }
        }
        if game.factions.contains(faction_id) {
            if game.turn_queue.len() == 0 {
                // The sole survivor: victory, and nobody acts any more.
                let builder = match game.factions.get(faction_id) {
                    Some(faction) => game.logger.message().with(
                        faction.name.as_str(),
                        logger::name_colour(),
                    ),
                    None => vstd::pervasive::unreached(),
                };
                let ghost first_tokens = builder.tokens@;
                let builder = builder.with(" is victorious!", logger::text_colour());
                builder.build(&mut game.logger);
                proof {
                    let t = game.logger.messages@.last().tokens@;
                    assert(t.subrange(0, 1) == first_tokens);
                    assert(t.subrange(0, 1)[0] == t[0]);
                    assert(first_tokens.last() == first_tokens[0]);
                    assert(t[0].content@ == gp.factions@.at(faction_id).name@);
                }
                game.current_faction_id = None;
            } else {
                // The candidate acts and rejoins the back of the rotation.
                game.current_faction_id = Some(faction_id);

                let mut turn_name = match game.factions.get(faction_id) {
                    Some(faction) => faction.name.clone(),
                    None => vstd::pervasive::unreached(),
                };
                let name_len = turn_name.as_str().unicode_len();
                let ends_in_s = if name_len > 0 {
                    turn_name.as_str().get_char(name_len - 1) == 's'
                } else {
                    false
                };
                if ends_in_s {
                    turn_name.append("'");
                } else {
                    turn_name.append("'s");
                }
                let builder = game.logger.message().with(
                    turn_name.as_str(),
                    logger::name_colour(),
                ).with(" turn.", logger::text_colour());
                builder.build(&mut game.logger);

                game.turn_queue.push_back(faction_id);
                proof {
                    let q = game.turn_queue@;
                    let rest = gp.turn_queue@.subrange(1, gp.turn_queue@.len() as int);
                    assert(q =~= rest.push(faction_id));
                    assert(game.inv()) by {
                        assert forall|k: int| 0 <= k < q.len() implies game.factions@.contains(
                            #[trigger] q[k],
                        ) by {
                            if k < q.len() - 1 {
                                assert(gp.turn_queue@[k + 1] == q[k]);
                            } else {
                                assert(q[k] == faction_id);
                            }
                        }
                        assert forall|k1: int, k2: int|
                            0 <= k1 < k2 < q.len() implies q[k1] != q[k2] by {
                            assert(gp.turn_queue@[k1 + 1] == q[k1]);
                            if k2 == q.len() - 1 {
                                assert(gp.turn_queue@[0] == faction_id);
                            } else {
                                assert(gp.turn_queue@[k2 + 1] == q[k2]);
                            }
                        }
                    }
                    assert forall|f: Gid| #[trigger] q.contains(f) implies gp.turn_queue@.contains(
                        f,
                    ) by {
                        let k = choose|k: int| 0 <= k < q.len() && q[k] == f;
                        if k < q.len() - 1 {
                            assert(gp.turn_queue@[k + 1] == f);
                        } else {
                            assert(gp.turn_queue@[0] == f);
                        }
                    }
                }
            }
        } else {
            // The candidate vanished mid-prune: stall, nobody acts.
            game.current_faction_id = None;
        }
    } else {
        // The rotation is empty: nobody acts.
        game.current_faction_id = None;
    }
    proof {
        if gp.turn_queue@.len() <= 1 {
            assert(game.inv());
        }
        assert forall|f: Gid| #[trigger] game.turn_queue@.contains(f) implies gp
            .turn_queue@.contains(f) by {
            if gp.turn_queue@.len() <= 1 {
                assert(game.turn_queue@.len() == 0);
            }
        }
        assert(game.logger.messages@.subrange(0, gp.logger.messages@.len() as int) =~= gp
            .logger.messages@);
    }
}

/// On a pruned state whose queue rotates exactly one faction that is not
/// all dead, that faction is the whole queue.
proof fn lemma_sole_survivor(g1: Game, gp: Game, k: int)
    requires
        g1.inv(),
        gp.inv(),
        forall|f: Gid|
            #[trigger] gp.turn_queue@.contains(f) <==> (g1.turn_queue@.contains(f) && !(
            g1.factions@.contains(f) && g1.spec_all_dead(f))),
        0 <= k < g1.turn_queue@.len(),
        !g1.spec_all_dead(g1.turn_queue@[k]),
        forall|k2: int|
            0 <= k2 < g1.turn_queue@.len() && k2 != k ==> g1.spec_all_dead(
                #[trigger] g1.turn_queue@[k2],
            ),
    ensures
        gp.turn_queue@.len() == 1,
        gp.turn_queue@[0] == g1.turn_queue@[k],
{
    let q0 = g1.turn_queue@;
    let f = q0[k];
    assert(g1.factions@.contains(f)) by {
        assert(g1.turn_queue@[k] == f);
    }
    assert(gp.turn_queue@.contains(f)) by {
        assert(q0.contains(f)) by {
            assert(q0[k] == f);
        }
    }
    assert forall|x: Gid| #[trigger] gp.turn_queue@.contains(x) implies x == f by {
        assert(q0.contains(x));
        let j = choose|j: int| 0 <= j < q0.len() && q0[j] == x;
        if j != k {
            assert(g1.spec_all_dead(q0[j]));
            assert(g1.factions@.contains(q0[j])) by {
                assert(g1.turn_queue@[j] == q0[j]);
            }
        }
    }
    assert(gp.turn_queue@.len() >= 1) by {
        let j = choose|j: int| 0 <= j < gp.turn_queue@.len() && gp.turn_queue@[j] == f;
    }
    assert(gp.turn_queue@.len() <= 1) by {
        if gp.turn_queue@.len() > 1 {
            assert(gp.turn_queue@.contains(gp.turn_queue@[0]));
            assert(gp.turn_queue@.contains(gp.turn_queue@[1]));
        }
    }
    assert(gp.turn_queue@.contains(gp.turn_queue@[0]));
}

/// After the prune and the rotation, the all-dead factions of the original
/// state are gone from the faction arena and from the queue, the queue has
/// gained no strangers, and an empty queue means nobody acts.
proof fn lemma_turn_queue_summary(g0: Game, g1: Game, gp: Game, ga: Game)
    requires
        g1.factions == g0.factions,
        g1.units == g0.units,
        g1.turn_queue == g0.turn_queue,
        forall|f: Gid|
            #[trigger] g1.factions@.contains(f) ==> (gp.factions@.contains(f)
                <==> !g1.spec_all_dead(f)),
        forall|f: Gid|
            #[trigger] gp.turn_queue@.contains(f) <==> (g1.turn_queue@.contains(f) && !(
            g1.factions@.contains(f) && g1.spec_all_dead(f))),
        forall|x: Gid| ga.factions@.contains(x) == gp.factions@.contains(x),
        forall|f: Gid| #[trigger] ga.turn_queue@.contains(f) ==> gp.turn_queue@.contains(f),
        gp.turn_queue@.len() == 0 ==> ga.current_faction_id is None && ga.turn_queue@.len() == 0,
        gp.turn_queue@.len() == 1 ==> ga.current_faction_id is None && ga.turn_queue@.len() == 0,
        gp.turn_queue@.len() > 1 ==> ga.current_faction_id == Some(gp.turn_queue@[0])
            && ga.turn_queue@ == gp.turn_queue@.subrange(1, gp.turn_queue@.len() as int).push(
            gp.turn_queue@[0],
        ),
    ensures
        forall|f: Gid|
            g0.factions@.contains(f) && g0.spec_all_dead(f) ==> !ga.factions@.contains(f)
                && !ga.turn_queue@.contains(f),
        forall|f: Gid| #[trigger] ga.turn_queue@.contains(f) ==> g0.turn_queue@.contains(f),
        ga.turn_queue@.len() == 0 ==> ga.current_faction_id is None,
{
    assert forall|f: Gid|
        g0.factions@.contains(f) && g0.spec_all_dead(f) implies !ga.factions@.contains(f)
        && !ga.turn_queue@.contains(f) by {
        assert(g1.factions@.contains(f) && g1.spec_all_dead(f));
        assert(!gp.factions@.contains(f));
        assert(!gp.turn_queue@.contains(f));
    }
    assert forall|f: Gid| #[trigger] ga.turn_queue@.contains(f) implies g0
        .turn_queue@.contains(f) by {
        assert(gp.turn_queue@.contains(f));
    }
    if ga.turn_queue@.len() > 0 {
        assert(gp.turn_queue@.len() > 1);
    }
}

/// When exactly one queued faction is not all dead, the rotation ends the
/// game: the queue empties, nobody acts, the survivor stays in the arena,
/// and the last logged message names it victorious.
proof fn lemma_turn_victory_summary(g0: Game, g1: Game, gp: Game, ga: Game)
    requires
        g1.inv(),
        gp.inv(),
        g1.factions == g0.factions,
        g1.units == g0.units,
        g1.turn_queue == g0.turn_queue,
        forall|f: Gid|
            #[trigger] gp.turn_queue@.contains(f) <==> (g1.turn_queue@.contains(f) && !(
            g1.factions@.contains(f) && g1.spec_all_dead(f))),
        forall|f: Gid|
            #[trigger] gp.factions@.contains(f) ==> gp.factions@.at(f).name == g1.factions@.at(
                f,
            ).name,
        forall|f: Gid|
            #[trigger] g1.factions@.contains(f) ==> (gp.factions@.contains(f)
                <==> !g1.spec_all_dead(f)),
        forall|x: Gid| ga.factions@.contains(x) == gp.factions@.contains(x),
        gp.turn_queue@.len() == 1 ==> ga.current_faction_id is None && ga.turn_queue@.len() == 0,
        gp.turn_queue@.len() == 1 && gp.factions@.contains(gp.turn_queue@[0])
            ==> ga.logger.messages@.len() == gp.logger.messages@.len() + 1
            && ga.logger.messages@.last().tokens@.len() == 2
            && ga.logger.messages@.last().tokens@[0].content@ == gp.factions@.at(
            gp.turn_queue@[0],
        ).name@ && ga.logger.messages@.last().tokens@[1].content@ == " is victorious!"@,
    ensures
        forall|k: int|
            #![trigger g0.turn_queue@[k]]
            (0 <= k < g0.turn_queue@.len() && !g0.spec_all_dead(g0.turn_queue@[k]) && (forall|
                k2: int,
            |
                0 <= k2 < g0.turn_queue@.len() && k2 != k ==> g0.spec_all_dead(
                    #[trigger] g0.turn_queue@[k2],
                ))) ==> (ga.turn_queue@.len() == 0 && ga.current_faction_id is None
                && ga.factions@.contains(g0.turn_queue@[k]) && ga.logger.messages@.len() > 0
                && ga.logger.messages@.last().tokens@.len() == 2
                && ga.logger.messages@.last().tokens@[0].content@ == g0.factions@.at(
                g0.turn_queue@[k],
            ).name@ && ga.logger.messages@.last().tokens@[1].content@ == " is victorious!"@),
{
    assert forall|k: int|
        #![trigger g0.turn_queue@[k]]
        (0 <= k < g0.turn_queue@.len() && !g0.spec_all_dead(g0.turn_queue@[k]) && (forall|k2: int|
            0 <= k2 < g0.turn_queue@.len() && k2 != k ==> g0.spec_all_dead(
                #[trigger] g0.turn_queue@[k2],
            ))) implies (ga.turn_queue@.len() == 0 && ga.current_faction_id is None
        && ga.factions@.contains(g0.turn_queue@[k]) && ga.logger.messages@.len() > 0
        && ga.logger.messages@.last().tokens@.len() == 2
        && ga.logger.messages@.last().tokens@[0].content@ == g0.factions@.at(
        g0.turn_queue@[k],
    ).name@ && ga.logger.messages@.last().tokens@[1].content@ == " is victorious!"@) by {
        assert(!g1.spec_all_dead(g1.turn_queue@[k]));
        assert forall|k2: int|
            0 <= k2 < g1.turn_queue@.len() && k2 != k implies g1.spec_all_dead(
            #[trigger] g1.turn_queue@[k2],
        ) by {
            assert(g0.spec_all_dead(g0.turn_queue@[k2]));
        }
        lemma_sole_survivor(g1, gp, k);
        assert(gp.turn_queue@.contains(gp.turn_queue@[0]));
        assert(g1.factions@.contains(g0.turn_queue@[k])) by {
            assert(g1.turn_queue@[k] == g0.turn_queue@[k]);
        }
        assert(gp.factions@.contains(gp.turn_queue@[0]));
        assert(gp.factions@.at(gp.turn_queue@[0]).name == g1.factions@.at(
            g1.turn_queue@[k],
        ).name);
        assert(ga.factions@.contains(g0.turn_queue@[k]));
    }
}

/// Through the prune and the rotation, the fallen roster units have left
/// the unit arena, an absent unit stands in no roster, and the living keep
/// their values.
proof fn lemma_turn_burial_summary(g0: Game, g1: Game, gp: Game, ga: Game)
    requires
        g1.factions == g0.factions,
        g1.units == g0.units,
        g1.areas == g0.areas,
        forall|x: Gid|
            #[trigger] gp.units@.contains(x) ==> g1.units@.contains(x) && gp.units@.at(x)
                == g1.units@.at(x),
        forall|x: Gid|
            g1.units@.contains(x) && g1.units@.at(x).health.spec_val() != 0
                ==> gp.units@.contains(x),
        forall|f: Gid, k: int|
            #![trigger g1.factions@.at(f).units@[k]]
            g1.factions@.contains(f) && 0 <= k < g1.factions@.at(f).units@.len() && g1.units@.at(
                g1.factions@.at(f).units@[k],
            ).health.spec_val() == 0 ==> !gp.units@.contains(g1.factions@.at(f).units@[k]),
        forall|u: Gid|
            !(#[trigger] gp.units@.contains(u)) ==> (forall|a: Gid|
                #[trigger] gp.areas@.contains(a) ==> !gp.areas@.at(a).units@.contains(u)) && (
            forall|f2: Gid|
                #[trigger] gp.factions@.contains(f2) ==> !gp.factions@.at(f2).units@.contains(u)),
        forall|x: Gid| ga.factions@.contains(x) == gp.factions@.contains(x),
        forall|x: Gid|
            gp.factions@.contains(x) ==> ga.factions@.at(x) == gp.factions@.at(x),
        ga.units == gp.units,
        ga.areas == gp.areas,
    ensures
        forall|f: Gid, k: int|
            #![trigger g0.factions@.at(f).units@[k]]
            g0.factions@.contains(f) && 0 <= k < g0.factions@.at(f).units@.len() && g0.units@.at(
                g0.factions@.at(f).units@[k],
            ).health.spec_val() == 0 ==> !ga.units@.contains(g0.factions@.at(f).units@[k]),
        forall|u: Gid|
            !(#[trigger] ga.units@.contains(u)) ==> (forall|a: Gid|
                #[trigger] ga.areas@.contains(a) ==> !ga.areas@.at(a).units@.contains(u)) && (
            forall|f2: Gid|
                #[trigger] ga.factions@.contains(f2) ==> !ga.factions@.at(f2).units@.contains(u)),
        forall|x: Gid|
            g0.units@.contains(x) && g0.units@.at(x).health.spec_val() != 0
                ==> ga.units@.contains(x) && ga.units@.at(x) == g0.units@.at(x),
{
    assert forall|f: Gid, k: int|
        #![trigger g0.factions@.at(f).units@[k]]
        g0.factions@.contains(f) && 0 <= k < g0.factions@.at(f).units@.len() && g0.units@.at(
            g0.factions@.at(f).units@[k],
        ).health.spec_val() == 0 implies !ga.units@.contains(g0.factions@.at(f).units@[k]) by {
        assert(!gp.units@.contains(g1.factions@.at(f).units@[k]));
    }
    assert forall|u: Gid| !(#[trigger] ga.units@.contains(u)) implies (forall|a: Gid|
        #[trigger] ga.areas@.contains(a) ==> !ga.areas@.at(a).units@.contains(u)) && (forall|
        f2: Gid,
    |
        #[trigger] ga.factions@.contains(f2) ==> !ga.factions@.at(f2).units@.contains(u)) by {
        assert(!gp.units@.contains(u));
        assert forall|a: Gid| #[trigger] ga.areas@.contains(a) implies !ga.areas@.at(
            a,
        ).units@.contains(u) by {
            assert(gp.areas@.contains(a));
            assert(!gp.areas@.at(a).units@.contains(u));
        }
        assert forall|f2: Gid| #[trigger] ga.factions@.contains(f2) implies !ga.factions@.at(
            f2,
        ).units@.contains(u) by {
            assert(gp.factions@.contains(f2));
            assert(!gp.factions@.at(f2).units@.contains(u));
            assert(ga.factions@.at(f2) == gp.factions@.at(f2));
        }
    }
}

/// When the front of the rotation survives the prune and at least one more
/// faction survives with it, the front becomes the acting faction and moves
/// to the back of the queue.
proof fn lemma_turn_rotation_summary(g0: Game, g1: Game, gp: Game, ga: Game)
    requires
        g0.inv(),
        gp.inv(),
        g1.factions == g0.factions,
        g1.units == g0.units,
        g1.turn_queue == g0.turn_queue,
        forall|f: Gid|
            #[trigger] gp.turn_queue@.contains(f) <==> (g1.turn_queue@.contains(f) && !(
            g1.factions@.contains(f) && g1.spec_all_dead(f))),
        g1.turn_queue@.len() > 0 && !(g1.factions@.contains(g1.turn_queue@[0])
            && g1.spec_all_dead(g1.turn_queue@[0])) ==> gp.turn_queue@.len() > 0
            && gp.turn_queue@[0] == g1.turn_queue@[0],
        gp.turn_queue@.len() > 1 ==> ga.current_faction_id == Some(gp.turn_queue@[0])
            && ga.turn_queue@ == gp.turn_queue@.subrange(1, gp.turn_queue@.len() as int).push(
            gp.turn_queue@[0],
        ),
    ensures
        ({
            let q0 = g0.turn_queue@;
            (q0.len() > 0 && g0.spec_survives(q0[0]) && (exists|k: int|
                1 <= k < q0.len() && g0.spec_survives(#[trigger] q0[k])))
                ==> ga.current_faction_id == Some(q0[0]) && ga.turn_queue@.len() >= 2
                && ga.turn_queue@.last() == q0[0]
        }),
{
    let q0 = g0.turn_queue@;
    if q0.len() > 0 && g0.spec_survives(q0[0]) && (exists|k: int|
        1 <= k < q0.len() && g0.spec_survives(#[trigger] q0[k])) {
        let k2 = choose|k: int| 1 <= k < q0.len() && g0.spec_survives(#[trigger] q0[k]);
        assert(g0.turn_queue@.contains(q0[0])) by {
            assert(g0.turn_queue@[0] == q0[0]);
        }
        assert(g0.turn_queue@.contains(q0[k2])) by {
            assert(g0.turn_queue@[k2] == q0[k2]);
        }
        assert(gp.turn_queue@.contains(q0[0]));
        assert(gp.turn_queue@.contains(q0[k2]));
        assert(q0[0] != q0[k2]);
        assert(gp.turn_queue@.len() >= 2) by {
            let i0 = choose|i: int| 0 <= i < gp.turn_queue@.len() && gp.turn_queue@[i] == q0[0];
            let i1 = choose|i: int| 0 <= i < gp.turn_queue@.len() && gp.turn_queue@[i] == q0[k2];
            assert(i0 != i1);
        }
        assert(gp.turn_queue@[0] == q0[0]);
    }
}

#[verifier::spinoff_prover]
#[verifier::rlimit(100)]
fn settle_turn(game: &mut Game)
    requires
        old(game).inv(),
    ensures
        final(game).inv(),
        final(game).selected_unit_id == old(game).selected_unit_id,
        final(game).menus == old(game).menus,
        final(game).menu_id == old(game).menu_id,
        final(game).item_id == old(game).item_id,
        final(game).menu_changed == old(game).menu_changed,
        forall|f: Gid|
            old(game).factions@.contains(f) && old(game).spec_all_dead(f) ==> !final(game).factions@.contains(f) && !final(game).turn_queue@.contains(f),
        forall|f: Gid|
            #[trigger] final(game).turn_queue@.contains(f) ==> old(game).turn_queue@.contains(f),
        final(game).turn_queue@.len() == 0 ==> final(game).current_faction_id is None,
        forall|k: int|
            #![trigger old(game).turn_queue@[k]]
            (0 <= k < old(game).turn_queue@.len() && !old(game).spec_all_dead(
                old(game).turn_queue@[k],
            ) && (forall|k2: int|
                0 <= k2 < old(game).turn_queue@.len() && k2 != k ==> old(game).spec_all_dead(
                    #[trigger] old(game).turn_queue@[k2],
                ))) ==> (final(game).turn_queue@.len() == 0 && final(game).current_faction_id
                is None && final(game).factions@.contains(old(game).turn_queue@[k])
                && final(game).logger.messages@.len() > 0
                && final(game).logger.messages@.last().tokens@.len() == 2
                && final(game).logger.messages@.last().tokens@[0].content@ == old(game).factions@.at(old(game).turn_queue@[k]).name@
                && final(game).logger.messages@.last().tokens@[1].content@
                    == " is victorious!"@),
        // the fallen have left the unit arena, and an absent unit stands in
        // no roster
        forall|f: Gid, k: int|
            #![trigger old(game).factions@.at(f).units@[k]]
            old(game).factions@.contains(f) && 0 <= k < old(game).factions@.at(f).units@.len()
                && old(game).units@.at(old(game).factions@.at(f).units@[k]).health.spec_val() == 0
                ==> !final(game).units@.contains(old(game).factions@.at(f).units@[k]),
        forall|u: Gid|
            !(#[trigger] final(game).units@.contains(u)) ==> (forall|a: Gid|
                #[trigger] final(game).areas@.contains(a) ==> !final(game).areas@.at(
                    a,
                ).units@.contains(u)) && (forall|f2: Gid|
                #[trigger] final(game).factions@.contains(f2) ==> !final(game).factions@.at(
                    f2,
                ).units@.contains(u)),
        // the living keep their values through the prune and the rotation
        forall|x: Gid|
            old(game).units@.contains(x) && old(game).units@.at(x).health.spec_val() != 0
                ==> final(game).units@.contains(x) && final(game).units@.at(x) == old(game).units@.at(x),
        // the ordinary rotation: a surviving front faction becomes the
        // acting one and rejoins the back of the queue
        ({
            let q0 = old(game).turn_queue@;
            (q0.len() > 0 && old(game).spec_survives(q0[0]) && (exists|k: int|
                1 <= k < q0.len() && old(game).spec_survives(#[trigger] q0[k]))) ==> final(game).current_faction_id == Some(q0[0]) && final(game).turn_queue@.len() >= 2 && final(game).turn_queue@.last() == q0[0]
        }),
        final(game).logger.messages@.len() > old(game).logger.messages@.len(),
{
    let ghost g0 = *game;

    // Narrate the turn's end.
    let builder = game.logger.message().with(
        "You end the turn.",
        crate::colour::Colour::dark_gray(),
    );
    builder.build(&mut game.logger);

    // Prune the fallen and the defeated.
    let ghost g1 = *game;
    prune(game);
    let ghost gp = *game;

    // The front of the rotation acts next.
    advance_turn(game);

    proof {
        lemma_turn_queue_summary(g0, g1, gp, *game);
        lemma_turn_victory_summary(g0, g1, gp, *game);
        lemma_turn_burial_summary(g0, g1, gp, *game);
        lemma_turn_rotation_summary(g0, g1, gp, *game);
    }
}

/// Ends the turn: the fallen and the defeated are pruned, the next faction
/// in the rotation becomes the acting one and moves to the back of the
/// queue, its units regain stamina, the other factions' delta trackers are
/// cleared, the selection is reset and the commands menu refreshed. When the
/// rotation holds exactly one surviving faction, the queue empties and no
/// faction is left acting: victory.
#[verifier::spinoff_prover]
#[verifier::rlimit(100)]
/// Everything ending the turn does: the fallen and defeated leave play,
/// the rotation advances (victory ending the game and being narrated when
/// one faction remains), the acting faction's units regain stamina, the
/// idle trackers are cleared, and the selection and commands menu reset.
pub open spec fn end_turn_post(g0: Game, g1: Game) -> bool {
    &&& g1.selected_unit_id is None
    &&& g1.menu_id == 0
    &&& g1.item_id == 0
    &&& g1.menu_changed
    &&& (forall|f: Gid|
        g0.factions@.contains(f) && g0.spec_all_dead(f) ==> !g1.factions@.contains(f)
            && !g1.turn_queue@.contains(f))
    &&& (forall|f: Gid| #[trigger] g1.turn_queue@.contains(f) ==> g0.turn_queue@.contains(f))
    &&& (g1.turn_queue@.len() == 0 ==> g1.current_faction_id is None)
    // victory: exactly one queued faction not all dead ends the game, and
    // the last message of the log names it victorious
    &&& (forall|k: int|
        #![trigger g0.turn_queue@[k]]
        (0 <= k < g0.turn_queue@.len() && !g0.spec_all_dead(g0.turn_queue@[k]) && (forall|k2: int|
            0 <= k2 < g0.turn_queue@.len() && k2 != k ==> g0.spec_all_dead(
                #[trigger] g0.turn_queue@[k2],
            ))) ==> (g1.turn_queue@.len() == 0 && g1.current_faction_id is None
            && g1.factions@.contains(g0.turn_queue@[k]) && g1.logger.messages@.len() > 0
            && g1.logger.messages@.last().tokens@.len() == 2
            && g1.logger.messages@.last().tokens@[0].content@ == g0.factions@.at(
            g0.turn_queue@[k],
        ).name@ && g1.logger.messages@.last().tokens@[1].content@ == " is victorious!"@))
    // the fallen roster units left the unit arena in the prune pass …
    &&& (forall|f: Gid, k: int|
        #![trigger g0.factions@.at(f).units@[k]]
        g0.factions@.contains(f) && 0 <= k < g0.factions@.at(f).units@.len() && g0.units@.at(
            g0.factions@.at(f).units@[k],
        ).health.spec_val() == 0 ==> !g1.units@.contains(g0.factions@.at(f).units@[k]))
    // … and an absent unit stands in no occupant or faction roster
    &&& (forall|u: Gid|
        !(#[trigger] g1.units@.contains(u)) ==> (forall|a: Gid|
            #[trigger] g1.areas@.contains(a) ==> !g1.areas@.at(a).units@.contains(u)) && (forall|
            f2: Gid,
        |
            #[trigger] g1.factions@.contains(f2) ==> !g1.factions@.at(f2).units@.contains(u)))
    // the ordinary rotation: a surviving front faction becomes the acting
    // one, rejoins the back of the queue, and the stamina pass runs for it
    &&& ({
        let q0 = g0.turn_queue@;
        (q0.len() > 0 && g0.spec_survives(q0[0]) && (exists|k: int|
            1 <= k < q0.len() && g0.spec_survives(#[trigger] q0[k]))) ==> g1.current_faction_id
            == Some(q0[0]) && g1.turn_queue@.len() >= 2 && g1.turn_queue@.last() == q0[0] && (
        forall|x: Gid|
            g0.units@.contains(x) && g0.units@.at(x).health.spec_val() != 0
                ==> g1.units@.contains(x) && stamina_tick(
                g0.units@.at(x),
                g1.units@.at(x),
                q0[0],
            ))
    })
}

#[verifier::spinoff_prover]
#[verifier::rlimit(100)]
pub fn end_turn(game: &mut Game)
    requires
        old(game).inv(),
    ensures
        final(game).inv(),
        end_turn_post(*old(game), *final(game)),
{
    settle_turn(game);
    let ghost gs = *game;

    // Hand out the new turn's stamina; clear everyone else's trackers.
    distribute_stamina(game);

    // Reset the selection and refresh the commands menu.
    game.selected_unit_id = None;
    let commands_menu_id = game.commands_menu_id;
    game.change_menu(commands_menu_id, true);

    proof {
        assert(game.factions == gs.factions);
        assert(game.turn_queue == gs.turn_queue);
        assert(game.current_faction_id == gs.current_faction_id);
        assert(game.areas == gs.areas);
        assert(game.logger == gs.logger);
        assert forall|x: Gid| game.units@.contains(x) == gs.units@.contains(x) by {
            if gs.current_faction_id is None {
            }
        }
        assert forall|f: Gid, k: int|
            #![trigger old(game).factions@.at(f).units@[k]]
            old(game).factions@.contains(f) && 0 <= k < old(game).factions@.at(f).units@.len()
                && old(game).units@.at(old(game).factions@.at(f).units@[k]).health.spec_val()
                == 0 implies !game.units@.contains(old(game).factions@.at(f).units@[k]) by {
            assert(!gs.units@.contains(old(game).factions@.at(f).units@[k]));
        }
        assert forall|u: Gid| !(#[trigger] game.units@.contains(u)) implies (forall|a: Gid|
            #[trigger] game.areas@.contains(a) ==> !game.areas@.at(a).units@.contains(u)) && (
        forall|f2: Gid|
            #[trigger] game.factions@.contains(f2) ==> !game.factions@.at(f2).units@.contains(
                u,
            )) by {
            assert(!gs.units@.contains(u));
        }
        let q0 = old(game).turn_queue@;
        if q0.len() > 0 && old(game).spec_survives(q0[0]) && (exists|k: int|
            1 <= k < q0.len() && old(game).spec_survives(#[trigger] q0[k])) {
            assert(gs.current_faction_id == Some(q0[0]));
            assert forall|x: Gid|
                old(game).units@.contains(x) && old(game).units@.at(x).health.spec_val()
                    != 0 implies game.units@.contains(x) && stamina_tick(
                old(game).units@.at(x),
                game.units@.at(x),
                q0[0],
            ) by {
                assert(gs.units@.contains(x) && gs.units@.at(x) == old(game).units@.at(x));
                assert(stamina_tick(gs.units@.at(x), game.units@.at(x), q0[0]));
            }
        }
    }
}

/// Everything a dispatched menu switch does: a known menu id switches with
/// force, an out-of-range one does nothing.
pub open spec fn change_menu_post(g0: Game, g1: Game, menu_id: usize) -> bool {
    if menu_id < 4 {
        g1 == (Game { menu_id, item_id: 0usize, menu_changed: true, ..g0 })
    } else {
        g1 == g0
    }
}

/// What dispatching each payload of the closed set does: exactly the
/// dispatched command's own contract, variant by variant.
pub open spec fn dispatch_post(g0: Game, g1: Game, data: crate::game::MenuData) -> bool {
    match data {
        crate::game::MenuData::ChangeMenu { menu_id } => change_menu_post(g0, g1, menu_id),
        crate::game::MenuData::SelectUnit { unit_id } => select_post(g0, g1, unit_id),
        crate::game::MenuData::AttackUnit { target_id } => attack_post(g0, g1, target_id),
        crate::game::MenuData::Reload { unit_id } => reload_post(g0, g1, unit_id),
        crate::game::MenuData::MoveUnit { unit_id, destination_id } => movement_post(
            g0,
            g1,
            unit_id,
            destination_id,
        ),
        crate::game::MenuData::EndTurn => end_turn_post(g0, g1),
        crate::game::MenuData::Empty => empty_post(g0, g1),
    }
}

/// Dispatches one confirmed menu payload into the command layer: the
/// closed tagged set is consumed by an exhaustive match, and the dispatched
/// command's contract holds of the outcome.
pub fn dispatch(game: &mut Game, data: crate::game::MenuData)
    requires
        old(game).inv(),
    ensures
        final(game).inv(),
        dispatch_post(*old(game), *final(game), data),
{
    match data {
        crate::game::MenuData::ChangeMenu { menu_id } => {
            if menu_id < 4 {
                game.change_menu(menu_id, true);
            }
        },
        crate::game::MenuData::SelectUnit { unit_id } => select(game, unit_id),
        crate::game::MenuData::AttackUnit { target_id } => attack(game, target_id),
        crate::game::MenuData::Reload { unit_id } => reload(game, unit_id),
        crate::game::MenuData::MoveUnit { unit_id, destination_id } => movement(
            game,
            unit_id,
            destination_id,
        ),
        crate::game::MenuData::EndTurn => end_turn(game),
        crate::game::MenuData::Empty => empty(game),
    }
}

/// Confirms the highlighted line of the active menu: its payload is
/// dispatched and the dispatched command's contract holds of the outcome;
/// confirming past the end of the list does nothing.
pub fn confirm(game: &mut Game)
    requires
        old(game).inv(),
    ensures
        final(game).inv(),
        ({
            let items = old(game).menus@[old(game).menu_id as int].spec_items();
            if old(game).item_id < items.len() {
                dispatch_post(
                    *old(game),
                    *final(game),
                    items[old(game).item_id as int].spec_data(),
                )
            } else {
                *final(game) == *old(game)
            }
        }),
{
    let item_data = {
        let menu = &game.menus[game.menu_id];
        match menu.get(game.item_id) {
            Some(item) => Some(*item.data()),
            None => None,
        }
    };
    if let Some(data) = item_data {
        dispatch(game, data);
    }
}

} // verus!
