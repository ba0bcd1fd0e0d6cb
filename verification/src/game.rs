//! The aggregate game state: the four entity arenas, the area graph, the
//! turn queue, the narration log, and the menu bookkeeping. Exactly one
//! mutator — the command layer — takes this aggregate by exclusive
//! reference; menu code only reads it plus its own bookkeeping.

use vstd::prelude::*;

use std::collections::VecDeque;

use crate::faction::Faction;
use crate::gid::{Arena, Gid};
use crate::logger::Logger;
use crate::menu::Menu;
use crate::unit::Unit;
use crate::weapon::Weapon;
use crate::world::{Area, World};

verus! {

/// The closed set of payloads a menu item can dispatch.
#[derive(Debug, Copy, Clone, PartialEq, Eq, Structural)]
pub enum MenuData {
    ChangeMenu { menu_id: usize },
    SelectUnit { unit_id: Gid },
    AttackUnit { target_id: Gid },
    Reload { unit_id: Gid },
    MoveUnit { unit_id: Gid, destination_id: Gid },
    EndTurn,
    Empty,
}

/// The fixed label a commands-menu payload is shown under.
pub open spec fn spec_command_label(data: MenuData) -> Seq<char> {
    match data {
        MenuData::ChangeMenu { menu_id } => if menu_id == 1 {
            "Select"@
        } else if menu_id == 2 {
            "Attack"@
        } else if menu_id == 3 {
            "Move"@
        } else {
            Seq::<char>::empty()
        },
        MenuData::Reload { unit_id } => "Reload"@,
        MenuData::EndTurn => "End Turn"@,
        _ => Seq::<char>::empty(),
    }
}

/// The whole simulation state.
#[derive(Debug)]
pub struct Game {
    pub factions: Arena<Faction>,
    pub units: Arena<Unit>,
    pub weapons: Arena<Weapon>,
    pub areas: Arena<Area>,
    pub world: World,
    pub current_faction_id: Option<Gid>,
    pub turn_queue: VecDeque<Gid>,
    pub selected_unit_id: Option<Gid>,
    pub info_unit_id: Option<Gid>,
    pub info_target_id: Option<Gid>,
    pub info_area_id: Option<Gid>,
    pub selectable: Vec<Gid>,
    pub targetable: Vec<Gid>,
    pub reachable: Vec<Gid>,
    pub show_map: bool,
    pub logger: Logger,
    pub menus: Vec<Menu<MenuData>>,
    pub menu_id: usize,
    pub item_id: usize,
    pub menu_changed: bool,
    pub commands_menu_id: usize,
    pub select_menu_id: usize,
    pub attack_menu_id: usize,
    pub move_menu_id: usize,
}

impl Game {
    /// A live unit's own numbers are valid and its relational references
    /// resolve: its weapon and its area of record exist.
    pub open spec fn unit_ok(self, g: Gid) -> bool {
        let u = self.units@.at(g);
        &&& u.inv()
        &&& self.weapons@.contains(u.weapon_id)
        &&& self.areas@.contains(u.area_id)
    }

    /// A live faction's roster is duplicate-free and lists only live units
    /// that belong to it.
    pub open spec fn faction_ok(self, g: Gid) -> bool {
        let f = self.factions@.at(g);
        &&& f.inv()
        &&& forall|k: int|
            0 <= k < f.units@.len() ==> self.units@.contains(#[trigger] f.units@[k])
                && self.units@.at(f.units@[k]).faction_id == g
    }

    /// A live area's occupant roster is duplicate-free and lists only live
    /// units whose area of record it is. Movement re-homes a unit eagerly:
    /// the roster is kept in step with `area_id` at every step, not patched
    /// up lazily.
    pub open spec fn area_ok(self, g: Gid) -> bool {
        let a = self.areas@.at(g);
        &&& a.inv()
        &&& forall|k: int|
            0 <= k < a.units@.len() ==> self.units@.contains(#[trigger] a.units@[k])
                && self.units@.at(a.units@[k]).area_id == g
    }

    /// The game-wide invariant every command preserves: well-formed arenas,
    /// valid cross-references, a duplicate-free turn queue of live factions,
    /// and the four fixed menus.
    pub open spec fn inv(self) -> bool {
        &&& self.factions@.wf()
        &&& self.units@.wf()
        &&& self.weapons@.wf()
        &&& self.areas@.wf()
        &&& forall|g: Gid| #[trigger] self.units@.contains(g) ==> self.unit_ok(g)
        &&& forall|g: Gid| #[trigger] self.weapons@.contains(g) ==> self.weapons@.at(g).inv()
        &&& forall|g: Gid| #[trigger] self.factions@.contains(g) ==> self.faction_ok(g)
        &&& forall|g: Gid| #[trigger] self.areas@.contains(g) ==> self.area_ok(g)
        &&& forall|k: int|
            0 <= k < self.turn_queue@.len() ==> self.factions@.contains(
                #[trigger] self.turn_queue@[k],
            )
        &&& forall|k1: int, k2: int|
            0 <= k1 < k2 < self.turn_queue@.len() ==> self.turn_queue@[k1]
                != self.turn_queue@[k2]
        &&& self.menus@.len() == 4
        &&& self.commands_menu_id == 0
        &&& self.select_menu_id == 1
        &&& self.attack_menu_id == 2
        &&& self.move_menu_id == 3
        &&& self.menu_id < 4
    }

    /// Whether every unit on the faction's roster has zero health — the
    /// condition under which the next prune pass removes the faction.
    pub open spec fn spec_all_dead(self, f: Gid) -> bool {
        let r = self.factions@.at(f).units@;
        forall|k: int| 0 <= k < r.len() ==> self.units@.at(#[trigger] r[k]).health.spec_val() == 0
    }

    /// Whether the faction outlives a prune pass: live, with at least one
    /// unit still standing.
    pub open spec fn spec_survives(self, f: Gid) -> bool {
        self.factions@.contains(f) && !self.spec_all_dead(f)
    }

    /// An empty world with the four fixed menus and nothing selected.
    pub fn new() -> (g: Game)
        ensures
            g.inv(),
            forall|x: Gid| !g.units@.contains(x),
            forall|x: Gid| !g.factions@.contains(x),
            forall|x: Gid| !g.weapons@.contains(x),
            forall|x: Gid| !g.areas@.contains(x),
            g.turn_queue@.len() == 0,
            g.current_faction_id is None,
            g.selected_unit_id is None,
            g.menu_id == 0,
            g.item_id == 0,
            g.menu_changed,
            g.logger.messages@.len() == 0,
    {
        let mut menus: Vec<Menu<MenuData>> = Vec::new();
        menus.push(Menu::new("COMMANDS"));
        menus.push(Menu::new("SELECT"));
        menus.push(Menu::new("ATTACK"));
        menus.push(Menu::new("MOVE"));
        Game {
            factions: Arena::new(),
            units: Arena::new(),
            weapons: Arena::new(),
            areas: Arena::new(),
            world: World::new(),
            current_faction_id: None,
            turn_queue: VecDeque::new(),
            selected_unit_id: None,
            info_unit_id: None,
            info_target_id: None,
            info_area_id: None,
            selectable: Vec::new(),
            targetable: Vec::new(),
            reachable: Vec::new(),
            show_map: false,
            logger: Logger::new(),
            menus,
            menu_id: 0,
            item_id: 0,
            menu_changed: true,
            commands_menu_id: 0,
            select_menu_id: 1,
            attack_menu_id: 2,
            move_menu_id: 3,
        }
    }

    /// Whether the select menu may offer `unit_id`: a living unit on the
    /// acting faction's roster, other than the one already selected.
    pub open spec fn spec_selectable(self, unit_id: Gid) -> bool {
        &&& self.current_faction_id is Some
        &&& self.factions@.contains(self.current_faction_id->0)
        &&& self.factions@.at(self.current_faction_id->0).units@.contains(unit_id)
        &&& self.units@.contains(unit_id)
        &&& self.units@.at(unit_id).health.spec_val() != 0
        &&& self.selected_unit_id != Some(unit_id)
    }

    /// Whether the attack menu may offer `target_id`: a living enemy
    /// sharing the selected unit's area, while the attacker stands at full
    /// stamina with ammunition left.
    pub open spec fn spec_targetable(self, target_id: Gid) -> bool {
        &&& self.current_faction_id is Some
        &&& self.factions@.contains(self.current_faction_id->0)
        &&& self.selected_unit_id is Some
        &&& self.units@.contains(self.selected_unit_id->0)
        &&& self.units@.contains(target_id)
        &&& ({
            let u = self.units@.at(self.selected_unit_id->0);
            let t = self.units@.at(target_id);
            &&& u.stamina.spec_val() == u.stamina.spec_max()
            &&& self.weapons@.contains(u.weapon_id)
            &&& self.weapons@.at(u.weapon_id).ammo.val != 0
            &&& t.faction_id != u.faction_id
            &&& t.area_id == u.area_id
            &&& t.health.spec_val() != 0
        })
    }

    /// Whether the move menu may offer `area_id`: a live area one existing
    /// hop away from the selected unit, which holds the stamina a move
    /// costs.
    pub open spec fn spec_reachable(self, area_id: Gid) -> bool {
        &&& self.current_faction_id is Some
        &&& self.factions@.contains(self.current_faction_id->0)
        &&& self.selected_unit_id is Some
        &&& self.units@.contains(self.selected_unit_id->0)
        &&& self.areas@.contains(area_id)
        &&& self.units@.at(self.selected_unit_id->0).stamina.spec_val() >= 50
        &&& self.world.spec_edges().contains(
            (self.units@.at(self.selected_unit_id->0).area_id, area_id),
        )
    }

    /// Whether the commands menu may offer a reload: the selected unit is
    /// live, its magazine is not full, and it has the stamina a reload
    /// costs.
    pub open spec fn spec_can_reload(self) -> bool {
        &&& self.selected_unit_id is Some
        &&& self.units@.contains(self.selected_unit_id->0)
        &&& ({
            let u = self.units@.at(self.selected_unit_id->0);
            &&& self.weapons@.contains(u.weapon_id)
            &&& u.stamina.spec_val() >= 25
            &&& self.weapons@.at(u.weapon_id).ammo.val < self.weapons@.at(u.weapon_id).ammo.max
        })
    }

    /// What one line of the commands menu is allowed to dispatch, given the
    /// freshly recomputed caches: no displayed action outruns what is
    /// actually executable.
    pub open spec fn spec_command_item_ok(self, data: MenuData) -> bool {
        match data {
            MenuData::ChangeMenu { menu_id } => {
                ||| (menu_id == 1 && self.selectable@.len() > 0)
                ||| (menu_id == 2 && self.targetable@.len() > 0)
                ||| (menu_id == 3 && self.reachable@.len() > 0)
            },
            MenuData::Reload { unit_id } => self.selected_unit_id == Some(unit_id)
                && self.spec_can_reload(),
            MenuData::EndTurn => self.turn_queue@.len() > 0,
            _ => false,
        }
    }

    /// Nothing but the menu bookkeeping and the derived caches moved.
    pub open spec fn spec_same_but_menus(self, o: Game) -> bool {
        &&& self.factions == o.factions
        &&& self.units == o.units
        &&& self.weapons == o.weapons
        &&& self.areas == o.areas
        &&& self.world == o.world
        &&& self.current_faction_id == o.current_faction_id
        &&& self.turn_queue == o.turn_queue
        &&& self.selected_unit_id == o.selected_unit_id
        &&& self.logger == o.logger
        &&& self.menu_id == o.menu_id
        &&& self.item_id == o.item_id
        &&& self.menu_changed == o.menu_changed
    }

    /// Rebuilding the commands menu establishes exactly this, between the
    /// state that was read (`g0`) and the state left behind (`g1`): the
    /// caches equal their legality predicates, the other menus stand
    /// untouched, and every line of the commands menu carries a legal
    /// payload under its fixed label.
    pub open spec fn commands_menu_fresh(g0: Game, g1: Game) -> bool {
        &&& g1.spec_same_but_menus(g0)
        &&& (forall|x: Gid| #[trigger] g1.selectable@.contains(x) <==> g0.spec_selectable(x))
        &&& (forall|x: Gid| #[trigger] g1.targetable@.contains(x) <==> g0.spec_targetable(x))
        &&& (forall|x: Gid| #[trigger] g1.reachable@.contains(x) <==> g0.spec_reachable(x))
        &&& g1.menus@.len() == 4
        &&& (forall|m: int| 1 <= m < 4 ==> g1.menus@[m] == g0.menus@[m])
        &&& (forall|k: int|
            0 <= k < g1.menus@[0].spec_items().len() ==> g1.spec_command_item_ok(
                (#[trigger] g1.menus@[0].spec_items()[k]).spec_data(),
            ) && g1.menus@[0].spec_items()[k].spec_text() == spec_command_label(
                g1.menus@[0].spec_items()[k].spec_data(),
            ))
    }

    /// Rebuilding the select menu establishes exactly this: one line per
    /// cached selectable unit, labelled with its name, then a labelled line
    /// back to the commands menu; nothing else moves.
    pub open spec fn select_menu_fresh(g0: Game, g1: Game) -> bool {
        &&& g1.spec_same_but_menus(g0)
        &&& g1.selectable == g0.selectable
        &&& g1.targetable == g0.targetable
        &&& g1.reachable == g0.reachable
        &&& g1.menus@.len() == 4
        &&& (forall|m: int| 0 <= m < 4 && m != 1 ==> g1.menus@[m] == g0.menus@[m])
        &&& ({
            let items = g1.menus@[1].spec_items();
            &&& items.len() == g0.selectable@.len() + 1
            &&& (forall|k: int|
                0 <= k < g0.selectable@.len() ==> {
                    let item = #[trigger] items[k];
                    &&& item.spec_data() == (MenuData::SelectUnit {
                        unit_id: g0.selectable@[k],
                    })
                    &&& (g0.units@.contains(g0.selectable@[k]) ==> item.spec_text()
                        == g0.units@.at(g0.selectable@[k]).name@)
                })
            &&& items.last().spec_data() == (MenuData::ChangeMenu { menu_id: 0 })
            &&& items.last().spec_text() == "Back"@
        })
    }

    /// Rebuilding the attack menu establishes exactly this: one line per
    /// cached target, labelled with its name, then a labelled line back.
    pub open spec fn attack_menu_fresh(g0: Game, g1: Game) -> bool {
        &&& g1.spec_same_but_menus(g0)
        &&& g1.selectable == g0.selectable
        &&& g1.targetable == g0.targetable
        &&& g1.reachable == g0.reachable
        &&& g1.menus@.len() == 4
        &&& (forall|m: int| 0 <= m < 4 && m != 2 ==> g1.menus@[m] == g0.menus@[m])
        &&& ({
            let items = g1.menus@[2].spec_items();
            &&& items.len() == g0.targetable@.len() + 1
            &&& (forall|k: int|
                0 <= k < g0.targetable@.len() ==> {
                    let item = #[trigger] items[k];
                    &&& item.spec_data() == (MenuData::AttackUnit {
                        target_id: g0.targetable@[k],
                    })
                    &&& (g0.units@.contains(g0.targetable@[k]) ==> item.spec_text()
                        == g0.units@.at(g0.targetable@[k]).name@)
                })
            &&& items.last().spec_data() == (MenuData::ChangeMenu { menu_id: 0 })
            &&& items.last().spec_text() == "Back"@
        })
    }

    /// Rebuilding the move menu establishes exactly this: with a selection,
    /// one line per cached reachable area, labelled with its name, then a
    /// labelled line back; without one, only the way back.
    pub open spec fn move_menu_fresh(g0: Game, g1: Game) -> bool {
        &&& g1.spec_same_but_menus(g0)
        &&& g1.selectable == g0.selectable
        &&& g1.targetable == g0.targetable
        &&& g1.reachable == g0.reachable
        &&& g1.menus@.len() == 4
        &&& (forall|m: int| 0 <= m < 4 && m != 3 ==> g1.menus@[m] == g0.menus@[m])
        &&& ({
            let items = g1.menus@[3].spec_items();
            &&& items.last().spec_data() == (MenuData::ChangeMenu { menu_id: 0 })
            &&& items.last().spec_text() == "Back"@
            &&& (g0.selected_unit_id is Some ==> items.len() == g0.reachable@.len() + 1 && (
            forall|k: int|
                0 <= k < g0.reachable@.len() ==> {
                    let item = #[trigger] items[k];
                    &&& item.spec_data() == (MenuData::MoveUnit {
                        unit_id: g0.selected_unit_id->0,
                        destination_id: g0.reachable@[k],
                    })
                    &&& (g0.areas@.contains(g0.reachable@[k]) ==> item.spec_text()
                        == g0.areas@.at(g0.reachable@[k]).name@)
                }))
            &&& (g0.selected_unit_id is None ==> items.len() == 1)
        })
    }

    /// Recomputes the selectable / targetable / reachable caches and the
    /// commands menu purely from the current world state. Every line the
    /// menu then shows is legal right now.
    pub fn update_commands_menu(&mut self)
        requires
            old(self).inv(),
        ensures
            final(self).inv(),
            Game::commands_menu_fresh(*old(self), *final(self)),
    {
        let ghost g0 = *self;
        self.selectable.clear();
        self.targetable.clear();
        self.reachable.clear();

        let mut can_reload = false;

        if let Some(faction_id) = self.current_faction_id {
            if self.factions.contains(faction_id) {
                // Selectable: the acting faction's living members.
                proof {
                    assert(g0.faction_ok(faction_id));
                }
                let ghost roster = g0.factions@.at(faction_id).units@;
                let roster_len = match self.factions.get(faction_id) {
                    Some(faction) => faction.units.len(),
                    None => vstd::pervasive::unreached(),
                };
                let mut i: usize = 0;
                while i < roster_len
                    invariant
                        g0.inv(),
                        *self == (Game {
                            selectable: self.selectable,
                            targetable: self.targetable,
                            reachable: self.reachable,
                            ..g0
                        }),
                        self.targetable@.len() == 0,
                        self.reachable@.len() == 0,
                        g0.current_faction_id == Some(faction_id),
                        g0.factions@.contains(faction_id),
                        roster == g0.factions@.at(faction_id).units@,
                        roster_len == roster.len(),
                        i <= roster.len(),
                        forall|x: Gid|
                            #[trigger] self.selectable@.contains(x) <==> exists|j: int|
                                0 <= j < i && #[trigger] roster[j] == x && g0.units@.at(
                                    x,
                                ).health.spec_val() != 0 && g0.selected_unit_id != Some(x),
                    decreases roster.len() - i,
                {
                    let uid = match self.factions.get(faction_id) {
                        Some(faction) => faction.units[i],
                        None => vstd::pervasive::unreached(),
                    };
                    proof {
                        assert(g0.faction_ok(faction_id));
                        assert(uid == roster[i as int]);
                        assert(g0.units@.contains(uid)) by {
                            assert(roster[i as int] == uid);
                        }
                    }
                    let alive = match self.units.get(uid) {
                        Some(unit) => unit.health.val() != 0,
                        None => vstd::pervasive::unreached(),
                    };
                    let already_selected = match self.selected_unit_id {
                        Some(sel) => sel == uid,
                        None => false,
                    };
                    let ghost sel0 = self.selectable@;
                    if alive && !already_selected {
                        self.selectable.push(uid);
                    }
                    proof {
                        broadcast use vstd::seq_lib::lemma_seq_contains_after_push;

                        assert forall|x: Gid| #[trigger] self.selectable@.contains(x) implies (
                        exists|j: int|
                            0 <= j < i + 1 && #[trigger] roster[j] == x && g0.units@.at(
                                x,
                            ).health.spec_val() != 0 && g0.selected_unit_id != Some(x)) by {
                            if sel0.contains(x) {
                                let j = choose|j: int|
                                    0 <= j < i && #[trigger] roster[j] == x && g0.units@.at(
                                        x,
                                    ).health.spec_val() != 0 && g0.selected_unit_id != Some(x);
                            } else {
                                assert(x == uid && alive && !already_selected);
                                assert(roster[i as int] == x);
                            }
                        }
                        assert forall|x: Gid|
                            (exists|j: int|
                                0 <= j < i + 1 && #[trigger] roster[j] == x && g0.units@.at(
                                    x,
                                ).health.spec_val() != 0 && g0.selected_unit_id != Some(x))
                            implies self.selectable@.contains(x) by {
                            let j = choose|j: int|
                                0 <= j < i + 1 && #[trigger] roster[j] == x && g0.units@.at(
                                    x,
                                ).health.spec_val() != 0 && g0.selected_unit_id != Some(x);
                            if j < i {
                                assert(sel0.contains(x));
                            } else {
                                assert(x == uid);
                            }
                        }
                    }
                    i = i + 1;
                }
                proof {
                    assert forall|x: Gid| #[trigger] self.selectable@.contains(x) implies g0
                        .spec_selectable(x) by {
                        let j = choose|j: int|
                            0 <= j < roster.len() && #[trigger] roster[j] == x && g0.units@.at(
                                x,
                            ).health.spec_val() != 0 && g0.selected_unit_id != Some(x);
                        assert(g0.factions@.at(faction_id).units@.contains(x));
                        assert(g0.faction_ok(faction_id));
                    }
                    assert forall|x: Gid| g0.spec_selectable(x) implies self.selectable@.contains(
                        x,
                    ) by {
                        let r = g0.factions@.at(faction_id).units@;
                        assert(r.contains(x));
                        let j = choose|j: int| 0 <= j < r.len() && r[j] == x;
                    }
                }

                if let Some(selected_unit_id) = self.selected_unit_id {
                    if self.units.contains(selected_unit_id) {
                        let (sel_faction, sel_area, sel_weapon, stamina_full, stamina_val) =
                            match self.units.get(selected_unit_id) {
                            Some(unit) => (
                                unit.faction_id,
                                unit.area_id,
                                unit.weapon_id,
                                unit.stamina.full(),
                                unit.stamina.val(),
                            ),
                            None => vstd::pervasive::unreached(),
                        };
                        let (ammo_val, ammo_max) = match self.weapons.get(sel_weapon) {
                            Some(weapon) => (weapon.ammo.val, weapon.ammo.max),
                            None => vstd::pervasive::unreached(),
                        };

                        // Targetable: living enemies in the same area, only
                        // while an attack is actually possible.
                        if stamina_full && ammo_val != 0 {
                            let uids = self.units.gids();
                            let mut j: usize = 0;
                            while j < uids.len()
                                invariant
                                    g0.inv(),
                                    *self == (Game {
                                        selectable: self.selectable,
                                        targetable: self.targetable,
                                        reachable: self.reachable,
                                        ..g0
                                    }),
                                    self.reachable@.len() == 0,
                                    j <= uids@.len(),
                                    forall|x: Gid| uids@.contains(x) <==> g0.units@.contains(x),
                                    forall|kk: int|
                                        0 <= kk < uids@.len() ==> g0.units@.contains(
                                            #[trigger] uids@[kk],
                                        ),
                                    forall|k1: int, k2: int|
                                        0 <= k1 < k2 < uids@.len() ==> uids@[k1].index
                                            < uids@[k2].index,
                                    g0.current_faction_id == Some(faction_id),
                                    g0.factions@.contains(faction_id),
                                    forall|x: Gid|
                                        #[trigger] self.selectable@.contains(x)
                                            <==> g0.spec_selectable(x),
                                    g0.selected_unit_id == Some(selected_unit_id),
                                    g0.units@.contains(selected_unit_id),
                                    g0.units@.at(selected_unit_id).faction_id == sel_faction,
                                    g0.units@.at(selected_unit_id).area_id == sel_area,
                                    g0.units@.at(selected_unit_id).weapon_id == sel_weapon,
                                    g0.units@.at(selected_unit_id).stamina.spec_val()
                                        == g0.units@.at(selected_unit_id).stamina.spec_max(),
                                    g0.weapons@.contains(sel_weapon),
                                    g0.weapons@.at(sel_weapon).ammo.val != 0,
                                    forall|x: Gid|
                                        #[trigger] self.targetable@.contains(x)
                                            <==> (exists|kk: int|
                                            0 <= kk < j && #[trigger] uids@[kk] == x)
                                            && g0.spec_targetable(x),
                                decreases uids@.len() - j,
                            {
                                let tid = uids[j];
                                proof {
                                    assert(g0.units@.contains(tid)) by {
                                        assert(uids@.contains(tid)) by {
                                            assert(uids@[j as int] == tid);
                                        }
                                    }
                                }
                                let push = match self.units.get(tid) {
                                    Some(target) => target.faction_id != sel_faction
                                        && target.area_id == sel_area && target.health.val() != 0,
                                    None => vstd::pervasive::unreached(),
                                };
                                let ghost t0 = self.targetable@;
                                if push {
                                    self.targetable.push(tid);
                                }
                                proof {
                                    broadcast use vstd::seq_lib::lemma_seq_contains_after_push;

                                    assert(push == g0.spec_targetable(tid));
                                    assert forall|x: Gid|
                                        #[trigger] self.targetable@.contains(x) implies ((exists|
                                        kk: int,
                                    |
                                        0 <= kk < j + 1 && #[trigger] uids@[kk] == x)
                                        && g0.spec_targetable(x)) by {
                                        if t0.contains(x) {
                                            let kk = choose|kk: int|
                                                0 <= kk < j && #[trigger] uids@[kk] == x;
                                        } else {
                                            assert(x == tid);
                                            assert(uids@[j as int] == x);
                                        }
                                    }
                                    assert forall|x: Gid|
                                        ((exists|kk: int|
                                            0 <= kk < j + 1 && #[trigger] uids@[kk] == x)
                                            && g0.spec_targetable(x)) implies self
                                        .targetable@.contains(x) by {
                                        let kk = choose|kk: int|
                                            0 <= kk < j + 1 && #[trigger] uids@[kk] == x;
                                        if kk < j {
                                            assert(t0.contains(x));
                                        } else {
                                            assert(x == tid);
                                        }
                                    }
                                }
                                j = j + 1;
                            }
                            proof {
                                assert forall|x: Gid| g0.spec_targetable(x) implies self
                                    .targetable@.contains(x) by {
                                    assert(uids@.contains(x));
                                    let kk = choose|kk: int|
                                        0 <= kk < uids@.len() && uids@[kk] == x;
                                }
                            }
                        }
                        proof {
                            assert forall|x: Gid|
                                #[trigger] self.targetable@.contains(x) <==> g0.spec_targetable(
                                x,
                            ) by {
                                if !(g0.units@.at(selected_unit_id).stamina.spec_val()
                                    == g0.units@.at(selected_unit_id).stamina.spec_max()
                                    && g0.weapons@.at(sel_weapon).ammo.val != 0) {
                                    assert(self.targetable@.len() == 0);
                                }
                            }
                        }
                        if stamina_val >= 25 && ammo_val < ammo_max {
                            can_reload = true;
                        }

                        // Reachable: live areas one existing hop away.
                        if stamina_val >= 50 {
                            let aids = self.areas.gids();
                            let mut j: usize = 0;
                            while j < aids.len()
                                invariant
                                    g0.inv(),
                                    *self == (Game {
                                        selectable: self.selectable,
                                        targetable: self.targetable,
                                        reachable: self.reachable,
                                        ..g0
                                    }),
                                    j <= aids@.len(),
                                    forall|x: Gid| aids@.contains(x) <==> g0.areas@.contains(x),
                                    forall|kk: int|
                                        0 <= kk < aids@.len() ==> g0.areas@.contains(
                                            #[trigger] aids@[kk],
                                        ),
                                    g0.current_faction_id == Some(faction_id),
                                    g0.factions@.contains(faction_id),
                                    forall|x: Gid|
                                        #[trigger] self.selectable@.contains(x)
                                            <==> g0.spec_selectable(x),
                                    forall|x: Gid|
                                        #[trigger] self.targetable@.contains(x)
                                            <==> g0.spec_targetable(x),
                                    g0.selected_unit_id == Some(selected_unit_id),
                                    g0.units@.contains(selected_unit_id),
                                    g0.units@.at(selected_unit_id).area_id == sel_area,
                                    g0.units@.at(selected_unit_id).stamina.spec_val() >= 50,
                                    forall|x: Gid|
                                        #[trigger] self.reachable@.contains(x)
                                            <==> (exists|kk: int|
                                            0 <= kk < j && #[trigger] aids@[kk] == x)
                                            && g0.spec_reachable(x),
                                decreases aids@.len() - j,
                            {
                                let aid = aids[j];
                                let push = self.world.contains_edge(sel_area, aid);
                                let ghost r0 = self.reachable@;
                                if push {
                                    self.reachable.push(aid);
                                }
                                proof {
                                    broadcast use vstd::seq_lib::lemma_seq_contains_after_push;

                                    assert(g0.areas@.contains(aid)) by {
                                        assert(aids@.contains(aid)) by {
                                            assert(aids@[j as int] == aid);
                                        }
                                    }
                                    assert(push == g0.spec_reachable(aid));
                                    assert forall|x: Gid|
                                        #[trigger] self.reachable@.contains(x) implies ((exists|
                                        kk: int,
                                    |
                                        0 <= kk < j + 1 && #[trigger] aids@[kk] == x)
                                        && g0.spec_reachable(x)) by {
                                        if r0.contains(x) {
                                            let kk = choose|kk: int|
                                                0 <= kk < j && #[trigger] aids@[kk] == x;
                                        } else {
                                            assert(x == aid);
                                            assert(aids@[j as int] == x);
                                        }
                                    }
                                    assert forall|x: Gid|
                                        ((exists|kk: int|
                                            0 <= kk < j + 1 && #[trigger] aids@[kk] == x)
                                            && g0.spec_reachable(x)) implies self
                                        .reachable@.contains(x) by {
                                        let kk = choose|kk: int|
                                            0 <= kk < j + 1 && #[trigger] aids@[kk] == x;
                                        if kk < j {
                                            assert(r0.contains(x));
                                        } else {
                                            assert(x == aid);
                                        }
                                    }
                                }
                                j = j + 1;
                            }
                            proof {
                                assert forall|x: Gid| g0.spec_reachable(x) implies self
                                    .reachable@.contains(x) by {
                                    assert(aids@.contains(x));
                                    let kk = choose|kk: int|
                                        0 <= kk < aids@.len() && aids@[kk] == x;
                                }
                            }
                        }
                    }
                }
            }
        }

        // Rebuild the commands menu from the caches.
        let has_selectable = self.selectable.len() != 0;
        let has_targetable = self.targetable.len() != 0;
        let has_reachable = self.reachable.len() != 0;
        let has_queue = self.turn_queue.len() != 0;
        let selected = self.selected_unit_id;
        let menu = &mut self.menus[0];
        menu.clear();
        if has_selectable {
            menu.add("Select", MenuData::ChangeMenu { menu_id: 1 });
        }
        if has_targetable {
            menu.add("Attack", MenuData::ChangeMenu { menu_id: 2 });
        }
        if can_reload {
            if let Some(unit_id) = selected {
                menu.add("Reload", MenuData::Reload { unit_id });
            }
        }
        if has_reachable {
            menu.add("Move", MenuData::ChangeMenu { menu_id: 3 });
        }
        if has_queue {
            menu.add("End Turn", MenuData::EndTurn);
        }
    }

    /// Rebuilds the select menu: one line per selectable unit, then a line
    /// back to the commands menu.
    pub fn update_select_menu(&mut self)
        requires
            old(self).inv(),
        ensures
            final(self).inv(),
            Game::select_menu_fresh(*old(self), *final(self)),
    {
        let ghost g0 = *self;
        {
            let menu = &mut self.menus[1];
            menu.clear();
        }
        let mut k: usize = 0;
        while k < self.selectable.len()
            invariant
                g0.inv(),
                *self == (Game { menus: self.menus, ..g0 }),
                self.menus@.len() == 4,
                forall|m: int| 0 <= m < 4 && m != 1 ==> self.menus@[m] == g0.menus@[m],
                k <= self.selectable@.len(),
                self.menus@[1].spec_items().len() == k,
                forall|j: int|
                    0 <= j < k ==> {
                        let item = #[trigger] self.menus@[1].spec_items()[j];
                        &&& item.spec_data() == (MenuData::SelectUnit {
                            unit_id: g0.selectable@[j],
                        })
                        &&& (g0.units@.contains(g0.selectable@[j]) ==> item.spec_text()
                            == g0.units@.at(g0.selectable@[j]).name@)
                    },
            decreases self.selectable@.len() - k,
        {
            let uid = self.selectable[k];
            let label = match self.units.get(uid) {
                Some(unit) => unit.name.clone(),
                None => String::new(),
            };
            let ghost prev = self.menus@[1].spec_items();
            let menu = &mut self.menus[1];
            menu.add(label.as_str(), MenuData::SelectUnit { unit_id: uid });
            proof {
                let items = self.menus@[1].spec_items();
                assert forall|j: int| 0 <= j < k + 1 implies {
                    let item = #[trigger] items[j];
                    &&& item.spec_data() == (MenuData::SelectUnit { unit_id: g0.selectable@[j] })
                    &&& (g0.units@.contains(g0.selectable@[j]) ==> item.spec_text()
                        == g0.units@.at(g0.selectable@[j]).name@)
                } by {
                    if j < k {
                        assert(items.subrange(0, k as int)[j] == items[j]);
                        assert(items.subrange(0, k as int)[j] == prev[j]);
                    } else {
                        assert(items.last() == items[j]);
                    }
                }
            }
            k = k + 1;
        }
        let ghost prev = self.menus@[1].spec_items();
        let menu = &mut self.menus[1];
        menu.add("Back", MenuData::ChangeMenu { menu_id: 0 });
        proof {
            let items = self.menus@[1].spec_items();
            assert forall|j: int| 0 <= j < g0.selectable@.len() implies {
                let item = #[trigger] items[j];
                &&& item.spec_data() == (MenuData::SelectUnit { unit_id: g0.selectable@[j] })
                &&& (g0.units@.contains(g0.selectable@[j]) ==> item.spec_text() == g0.units@.at(
                    g0.selectable@[j],
                ).name@)
            } by {
                assert(items.subrange(0, prev.len() as int)[j] == items[j]);
                assert(items.subrange(0, prev.len() as int)[j] == prev[j]);
            }
        }
    }

    /// Rebuilds the attack menu: one line per targetable enemy, then a line
    /// back to the commands menu.
    pub fn update_attack_menu(&mut self)
        requires
            old(self).inv(),
        ensures
            final(self).inv(),
            Game::attack_menu_fresh(*old(self), *final(self)),
    {
        let ghost g0 = *self;
        {
            let menu = &mut self.menus[2];
            menu.clear();
        }
        let mut k: usize = 0;
        while k < self.targetable.len()
            invariant
                g0.inv(),
                *self == (Game { menus: self.menus, ..g0 }),
                self.menus@.len() == 4,
                forall|m: int| 0 <= m < 4 && m != 2 ==> self.menus@[m] == g0.menus@[m],
                k <= self.targetable@.len(),
                self.menus@[2].spec_items().len() == k,
                forall|j: int|
                    0 <= j < k ==> {
                        let item = #[trigger] self.menus@[2].spec_items()[j];
                        &&& item.spec_data() == (MenuData::AttackUnit {
                            target_id: g0.targetable@[j],
                        })
                        &&& (g0.units@.contains(g0.targetable@[j]) ==> item.spec_text()
                            == g0.units@.at(g0.targetable@[j]).name@)
                    },
            decreases self.targetable@.len() - k,
        {
            let tid = self.targetable[k];
            let label = match self.units.get(tid) {
                Some(target) => target.name.clone(),
                None => String::new(),
            };
            let ghost prev = self.menus@[2].spec_items();
            let menu = &mut self.menus[2];
            menu.add(label.as_str(), MenuData::AttackUnit { target_id: tid });
            proof {
                let items = self.menus@[2].spec_items();
                assert forall|j: int| 0 <= j < k + 1 implies {
                    let item = #[trigger] items[j];
                    &&& item.spec_data() == (MenuData::AttackUnit { target_id: g0.targetable@[j] })
                    &&& (g0.units@.contains(g0.targetable@[j]) ==> item.spec_text()
                        == g0.units@.at(g0.targetable@[j]).name@)
                } by {
                    if j < k {
                        assert(items.subrange(0, k as int)[j] == items[j]);
                        assert(items.subrange(0, k as int)[j] == prev[j]);
                    } else {
                        assert(items.last() == items[j]);
                    }
                }
            }
            k = k + 1;
        }
        let ghost prev = self.menus@[2].spec_items();
        let menu = &mut self.menus[2];
        menu.add("Back", MenuData::ChangeMenu { menu_id: 0 });
        proof {
            let items = self.menus@[2].spec_items();
            assert forall|j: int| 0 <= j < g0.targetable@.len() implies {
                let item = #[trigger] items[j];
                &&& item.spec_data() == (MenuData::AttackUnit { target_id: g0.targetable@[j] })
                &&& (g0.units@.contains(g0.targetable@[j]) ==> item.spec_text() == g0.units@.at(
                    g0.targetable@[j],
                ).name@)
            } by {
                assert(items.subrange(0, prev.len() as int)[j] == items[j]);
                assert(items.subrange(0, prev.len() as int)[j] == prev[j]);
            }
        }
    }

    /// Rebuilds the move menu: one line per reachable area for the selected
    /// unit, then a line back to the commands menu. Without a selection only
    /// the way back is offered.
    pub fn update_move_menu(&mut self)
        requires
            old(self).inv(),
        ensures
            final(self).inv(),
            Game::move_menu_fresh(*old(self), *final(self)),
    {
        let ghost g0 = *self;
        {
            let menu = &mut self.menus[3];
            menu.clear();
        }
        if let Some(selected_unit_id) = self.selected_unit_id {
            let mut k: usize = 0;
            while k < self.reachable.len()
                invariant
                    g0.inv(),
                    *self == (Game { menus: self.menus, ..g0 }),
                    g0.selected_unit_id == Some(selected_unit_id),
                    self.menus@.len() == 4,
                    forall|m: int| 0 <= m < 4 && m != 3 ==> self.menus@[m] == g0.menus@[m],
                    k <= self.reachable@.len(),
                    self.menus@[3].spec_items().len() == k,
                    forall|j: int|
                        0 <= j < k ==> {
                            let item = #[trigger] self.menus@[3].spec_items()[j];
                            &&& item.spec_data() == (MenuData::MoveUnit {
                                unit_id: selected_unit_id,
                                destination_id: g0.reachable@[j],
                            })
                            &&& (g0.areas@.contains(g0.reachable@[j]) ==> item.spec_text()
                                == g0.areas@.at(g0.reachable@[j]).name@)
                        },
                decreases self.reachable@.len() - k,
            {
                let aid = self.reachable[k];
                let label = match self.areas.get(aid) {
                    Some(area) => area.name.clone(),
                    None => String::new(),
                };
                let ghost prev = self.menus@[3].spec_items();
                let menu = &mut self.menus[3];
                menu.add(
                    label.as_str(),
                    MenuData::MoveUnit { unit_id: selected_unit_id, destination_id: aid },
                );
                proof {
                    let items = self.menus@[3].spec_items();
                    assert forall|j: int| 0 <= j < k + 1 implies {
                        let item = #[trigger] items[j];
                        &&& item.spec_data() == (MenuData::MoveUnit {
                            unit_id: selected_unit_id,
                            destination_id: g0.reachable@[j],
                        })
                        &&& (g0.areas@.contains(g0.reachable@[j]) ==> item.spec_text()
                            == g0.areas@.at(g0.reachable@[j]).name@)
                    } by {
                        if j < k {
                            assert(items.subrange(0, k as int)[j] == items[j]);
                            assert(items.subrange(0, k as int)[j] == prev[j]);
                        } else {
                            assert(items.last() == items[j]);
                        }
                    }
                }
                k = k + 1;
            }
        }
        let ghost prev = self.menus@[3].spec_items();
        let menu = &mut self.menus[3];
        menu.add("Back", MenuData::ChangeMenu { menu_id: 0 });
        proof {
            let items = self.menus@[3].spec_items();
            if g0.selected_unit_id is Some {
                assert forall|j: int| 0 <= j < g0.reachable@.len() implies {
                    let item = #[trigger] items[j];
                    &&& item.spec_data() == (MenuData::MoveUnit {
                        unit_id: g0.selected_unit_id->0,
                        destination_id: g0.reachable@[j],
                    })
                    &&& (g0.areas@.contains(g0.reachable@[j]) ==> item.spec_text() == g0.areas@.at(
                        g0.reachable@[j],
                    ).name@)
                } by {
                    assert(items.subrange(0, prev.len() as int)[j] == items[j]);
                    assert(items.subrange(0, prev.len() as int)[j] == prev[j]);
                }
            }
        }
    }

    /// Points the info panels at whatever the highlighted menu line talks
    /// about: the selected unit by default, the highlighted unit on the
    /// select menu, the highlighted target on the attack menu, and the
    /// highlighted destination on the move menu.
    pub fn refresh_info(&mut self)
        requires
            old(self).inv(),
        ensures
            final(self).inv(),
            *final(self) == (Game {
                info_unit_id: final(self).info_unit_id,
                info_target_id: final(self).info_target_id,
                info_area_id: final(self).info_area_id,
                ..*old(self)
            }),
            ({
                let items = old(self).menus@[old(self).menu_id as int].spec_items();
                let highlighted = old(self).item_id < items.len();
                &&& (old(self).menu_id == 0 ==> final(self).info_unit_id == old(self).selected_unit_id && final(self).info_target_id is None && final(self).info_area_id is None)
                &&& (old(self).menu_id == 1 && highlighted ==> match items[
                    old(self).item_id as int
                ].spec_data() {
                    MenuData::SelectUnit { unit_id } => final(self).info_unit_id == Some(unit_id),
                    _ => final(self).info_unit_id is None,
                })
                &&& (old(self).menu_id == 2 && highlighted ==> match items[
                    old(self).item_id as int
                ].spec_data() {
                    MenuData::AttackUnit { target_id } => final(self).info_target_id == Some(
                        target_id,
                    ),
                    _ => final(self).info_target_id is None,
                })
                &&& (old(self).menu_id == 3 && highlighted ==> match items[
                    old(self).item_id as int
                ].spec_data() {
                    MenuData::MoveUnit { unit_id, destination_id } => final(self).info_area_id
                        == Some(destination_id),
                    _ => final(self).info_area_id is None,
                })
            }),
    {
        self.info_unit_id = self.selected_unit_id;
        self.info_target_id = None;
        self.info_area_id = None;

        let item_data = {
            let menu = &self.menus[self.menu_id];
            match menu.get(self.item_id) {
                Some(item) => Some(*item.data()),
                None => None,
            }
        };
        if self.menu_id == 1 {
            match item_data {
                Some(MenuData::SelectUnit { unit_id }) => {
                    self.info_unit_id = Some(unit_id);
                },
                Some(_) => {
                    self.info_unit_id = None;
                },
                None => {},
            }
        } else if self.menu_id == 2 {
            match item_data {
                Some(MenuData::AttackUnit { target_id }) => {
                    self.info_target_id = Some(target_id);
                },
                Some(_) => {
                    self.info_target_id = None;
                },
                None => {},
            }
        } else if self.menu_id == 3 {
            match item_data {
                Some(MenuData::MoveUnit { unit_id: _, destination_id }) => {
                    self.info_area_id = Some(destination_id);
                },
                Some(_) => {
                    self.info_area_id = None;
                },
                None => {},
            }
        }
    }

    /// Recomputes the active menu's item list from current world state when
    /// the dirty flag is set: options are always derived anew, never
    /// hand-maintained.
    pub fn refresh(&mut self)
        requires
            old(self).inv(),
        ensures
            final(self).inv(),
            !final(self).menu_changed,
            !old(self).menu_changed ==> *final(self) == *old(self),
            old(self).menu_changed ==> ({
                let g0 = (Game { menu_changed: false, ..*old(self) });
                &&& (old(self).menu_id == 0 ==> Game::commands_menu_fresh(g0, *final(self)))
                &&& (old(self).menu_id == 1 ==> Game::select_menu_fresh(g0, *final(self)))
                &&& (old(self).menu_id == 2 ==> Game::attack_menu_fresh(g0, *final(self)))
                &&& (old(self).menu_id == 3 ==> Game::move_menu_fresh(g0, *final(self)))
            }),
    {
        if self.menu_changed {
            self.menu_changed = false;
            if self.menu_id == 0 {
                self.update_commands_menu();
            } else if self.menu_id == 1 {
                self.update_select_menu();
            } else if self.menu_id == 2 {
                self.update_attack_menu();
            } else {
                self.update_move_menu();
            }
        }
    }

    /// Switches the active menu, resetting the highlight and marking the
    /// item list for recomputation; without `force`, switching to the menu
    /// already active does nothing.
    pub fn change_menu(&mut self, menu_id: usize, force_menu_changed: bool)
        requires
            menu_id < 4,
        ensures
            old(self).menu_id != menu_id || force_menu_changed ==> *final(self) == (Game {
                menu_id,
                item_id: 0,
                menu_changed: true,
                ..*old(self)
            }),
            !(old(self).menu_id != menu_id || force_menu_changed) ==> *final(self) == *old(self),
    {
        if self.menu_id != menu_id || force_menu_changed {
            self.menu_id = menu_id;
            self.item_id = 0;
            self.menu_changed = true;
        }
    }

    /// Moves the highlight one line up, wrapping from the top line to the
    /// bottom one.
    pub fn navigate_up(&mut self)
        requires
            old(self).inv(),
        ensures
            final(self).inv(),
            final(self).item_id == ({
                let len = old(self).menus@[old(self).menu_id as int].spec_items().len();
                if old(self).item_id == 0 {
                    if len == 0 {
                        0int
                    } else {
                        len - 1
                    }
                } else {
                    old(self).item_id - 1
                }
            }),
            *final(self) == (Game { item_id: final(self).item_id, ..*old(self) }),
    {
        let menu = &self.menus[self.menu_id];
        if self.item_id == 0 {
            self.item_id = menu.len().saturating_sub(1);
        } else {
            self.item_id = self.item_id - 1;
        }
    }

    /// Moves the highlight one line down, wrapping from the bottom line to
    /// the top one.
    pub fn navigate_down(&mut self)
        requires
            old(self).inv(),
        ensures
            final(self).inv(),
            final(self).item_id == ({
                let len = old(self).menus@[old(self).menu_id as int].spec_items().len();
                if old(self).item_id + 1 >= len {
                    0int
                } else {
                    old(self).item_id + 1
                }
            }),
            *final(self) == (Game { item_id: final(self).item_id, ..*old(self) }),
    {
        let menu = &self.menus[self.menu_id];
        if self.item_id >= menu.len().saturating_sub(1) {
            self.item_id = 0;
        } else {
            self.item_id = self.item_id + 1;
        }
    }
}

} // verus!
