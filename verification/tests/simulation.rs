use tactics::colour::Colour;
use tactics::combat::{apply_damage, roll_hits, simulate_damage, Vitals};
use tactics::commands;
use tactics::game::{Game, MenuData};
use tactics::gid::{Arena, Gid};
use tactics::text::dec_string;
use tactics::unit::{Stat, Unit};
use tactics::weapon::{Ammo, Damage, Weapon};
use tactics::world::{Area, Edge};
use tactics::faction::Faction;
use tactics::clip::Clip;
use tactics::grid::Grid;
use tactics::grid2d::{Grid2D, Index};
use tactics::menu::Menu;
use tactics::tile::Tile;

fn weapon(base: u16, pierce: u16, energy: u16, explosion: u16, rolls: u16, accuracy: u16) -> Weapon {
    Weapon {
        name: String::from("Rifle"),
        role: String::from("Standard"),
        ammo: Ammo { val: 8, max: 8 },
        accuracy,
        rolls,
        weight: 3,
        damage: Damage { base, pierce, energy, explosion },
    }
}

struct Setup {
    game: Game,
    faction_a: Gid,
    faction_b: Gid,
    area_one: Gid,
    area_two: Gid,
    u1: Gid,
    u2: Gid,
}

/// Two factions with one unit each, standing in the same area, a second
/// area one hop away, and faction A at the front of the rotation.
fn two_faction_game(w: Weapon, u2_health: u16, u2_armour: u16, u2_shield: u16) -> Setup {
    let mut game = Game::new();

    let area_one = game.areas.insert(Area { name: String::from("Yard"), units: Vec::new() });
    let area_two = game.areas.insert(Area { name: String::from("Hall"), units: Vec::new() });
    game.world.add_node(area_one);
    game.world.add_node(area_two);
    game.world.add_edge(area_one, area_two, Edge);

    let faction_a = game.factions.insert(Faction { name: String::from("Azure"), units: Vec::new() });
    let faction_b = game.factions.insert(Faction { name: String::from("Briar"), units: Vec::new() });

    let w1 = game.weapons.insert(w);
    let w2 = game.weapons.insert(weapon(1, 0, 0, 0, 1, 100));

    let u1 = game.units.insert(Unit {
        name: String::from("Iris"),
        role: String::from("Scout"),
        faction_id: faction_a,
        area_id: area_one,
        weapon_id: w1,
        health: Stat::new(10),
        armour: Stat::new(0),
        shield: Stat::new(0),
        stamina: Stat::new(100),
        accuracy: 100,
        speed: 25,
    });
    let u2 = game.units.insert(Unit {
        name: String::from("Moss"),
        role: String::from("Guard"),
        faction_id: faction_b,
        area_id: area_one,
        weapon_id: w2,
        health: Stat::new(u2_health),
        armour: Stat::new(u2_armour),
        shield: Stat::new(u2_shield),
        stamina: Stat::new(100),
        accuracy: 100,
        speed: 25,
    });

    game.factions.get_mut(faction_a).units.push(u1);
    game.factions.get_mut(faction_b).units.push(u2);
    game.areas.get_mut(area_one).units.push(u1);
    game.areas.get_mut(area_one).units.push(u2);

    game.current_faction_id = Some(faction_a);
    game.turn_queue.push_back(faction_b);
    game.turn_queue.push_back(faction_a);

    Setup { game, faction_a, faction_b, area_one, area_two, u1, u2 }
}

#[test]
fn stat_stays_within_bounds() {
    let mut s = Stat::new(10);
    assert_eq!(s.val(), 10);
    assert_eq!(s.max(), 10);
    s.change_by(-25);
    assert_eq!(s.val(), 0);
    assert_eq!(s.change(), -25);
    s.change_by(100);
    assert_eq!(s.val(), 10);
    assert_eq!(s.change(), 100);
    s.change_by(3);
    assert_eq!(s.val(), 10);
    assert_eq!(s.change(), 103);
    s.change_by(-1);
    assert_eq!(s.val(), 9);
    assert_eq!(s.change(), -1);
    s.clear_change();
    assert_eq!(s.change(), 0);
    assert!(!s.full());
}

#[test]
fn stat_change_by_extremes() {
    let mut s = Stat::new(65535);
    s.change_by(i64::MIN);
    assert_eq!(s.val(), 0);
    s.change_by(i64::MAX);
    assert_eq!(s.val(), 65535);
    assert!(s.full());
}

#[test]
fn arena_generation_isolation() {
    let mut arena: Arena<u32> = Arena::new();
    let a = arena.insert(7);
    assert!(arena.contains(a));
    assert_eq!(arena.get(a), Some(&7));
    let removed = arena.remove(a);
    assert_eq!(removed, Some(7));
    assert!(!arena.contains(a));
    assert_eq!(arena.get(a), None);
    // The slot is reused, yet the stale handle stays dead.
    let b = arena.insert(9);
    assert_eq!(b.index, a.index);
    assert_ne!(b.generation, a.generation);
    assert!(!arena.contains(a));
    assert_eq!(arena.get(a), None);
    assert_eq!(arena.get(b), Some(&9));
    assert_eq!(arena.gids(), [b].to_vec());
}

#[test]
fn arena_remove_is_noop_on_stale_handle() {
    let mut arena: Arena<u32> = Arena::new();
    let a = arena.insert(1);
    arena.remove(a);
    assert_eq!(arena.remove(a), None);
    let b = arena.insert(2);
    assert_eq!(arena.remove(a), None);
    assert_eq!(arena.get(b), Some(&2));
}

#[test]
fn bare_target_takes_all_generic_damage() {
    // Shield 0, armour 0, forced hits: all base damage reaches health, and
    // the explosive channel lands on top.
    let mut vitals = Vitals { health: Stat::new(100), armour: Stat::new(0), shield: Stat::new(0) };
    let dd = apply_damage(Damage { base: 10, pierce: 2, energy: 2, explosion: 3 }, 2, &mut vitals);
    assert_eq!(dd.hits, 2);
    assert_eq!(dd.health, 26);
    assert_eq!(dd.armour, 0);
    assert_eq!(dd.shield, 0);
    assert_eq!(vitals.health.val(), 74);
}

#[test]
fn layered_damage_carries_through() {
    // Shield 5 takes energy 2 then 3 of the 10 base; armour 4 takes the
    // pierce then 4 more; the last 3 base plus the explosion reach health.
    let mut vitals = Vitals { health: Stat::new(50), armour: Stat::new(4), shield: Stat::new(5) };
    let dd = apply_damage(Damage { base: 10, pierce: 0, energy: 2, explosion: 1 }, 1, &mut vitals);
    assert_eq!(dd.hits, 1);
    assert_eq!(dd.shield, 5);
    assert_eq!(dd.armour, 4);
    assert_eq!(dd.health, 3 + 1);
    assert_eq!(vitals.shield.val(), 0);
    assert_eq!(vitals.armour.val(), 0);
    assert_eq!(vitals.health.val(), 46);
}

#[test]
fn shield_blocks_generic_damage() {
    // A standing shield keeps armour and health untouched by base damage.
    let mut vitals = Vitals { health: Stat::new(50), armour: Stat::new(4), shield: Stat::new(30) };
    let dd = apply_damage(Damage { base: 10, pierce: 5, energy: 2, explosion: 0 }, 1, &mut vitals);
    assert_eq!(dd.shield, 12);
    assert_eq!(dd.armour, 0);
    assert_eq!(dd.health, 0);
    assert_eq!(vitals.shield.val(), 18);
    assert_eq!(vitals.health.val(), 50);
}

#[test]
fn zero_rolls_resolve_to_nothing() {
    let mut vitals = Vitals { health: Stat::new(10), armour: Stat::new(5), shield: Stat::new(5) };
    let before = vitals;
    let dd = simulate_damage(10000, 0, Damage { base: 9, pierce: 9, energy: 9, explosion: 9 }, &mut vitals);
    assert_eq!(dd.hits, 0);
    assert_eq!(dd.health, 0);
    assert_eq!(dd.armour, 0);
    assert_eq!(dd.shield, 0);
    assert_eq!(vitals, before);
}

#[test]
fn zero_accuracy_never_hits() {
    let mut vitals = Vitals { health: Stat::new(10), armour: Stat::new(0), shield: Stat::new(0) };
    let before = vitals;
    for _ in 0..50 {
        let dd = simulate_damage(0, 8, Damage { base: 9, pierce: 0, energy: 0, explosion: 0 }, &mut vitals);
        assert_eq!(dd.hits, 0);
        assert_eq!(dd.health, 0);
    }
    assert_eq!(vitals, before);
}

#[test]
fn certain_accuracy_always_hits() {
    // Were the random draw ever out of range, full-scale accuracy could
    // miss; it never does.
    for _ in 0..50 {
        assert_eq!(roll_hits(10000, 6), 6);
    }
    assert_eq!(roll_hits(0, 6), 0);
}

#[test]
fn movement_follows_edges_and_costs_fifty() {
    let mut s = two_faction_game(weapon(10, 0, 0, 0, 1, 100), 10, 0, 0);
    // No edge leads back, so a move in the wrong direction does nothing.
    commands::movement(&mut s.game, s.u1, s.area_one);
    assert_eq!(s.game.units.get(s.u1).unwrap().area_id, s.area_one);
    assert_eq!(s.game.units.get(s.u1).unwrap().stamina.val(), 100);
    // Across the existing edge the move costs exactly fifty stamina.
    commands::movement(&mut s.game, s.u1, s.area_two);
    assert_eq!(s.game.units.get(s.u1).unwrap().area_id, s.area_two);
    assert_eq!(s.game.units.get(s.u1).unwrap().stamina.val(), 50);
    assert!(s.game.areas.get(s.area_two).unwrap().units.contains(&s.u1));
    assert!(!s.game.areas.get(s.area_one).unwrap().units.contains(&s.u1));
    // A second hop would need an edge from the new area: silent no-op.
    commands::movement(&mut s.game, s.u1, s.area_one);
    assert_eq!(s.game.units.get(s.u1).unwrap().area_id, s.area_two);
    assert_eq!(s.game.units.get(s.u1).unwrap().stamina.val(), 50);
}

#[test]
fn movement_needs_fifty_stamina() {
    let mut s = two_faction_game(weapon(10, 0, 0, 0, 1, 100), 10, 0, 0);
    let unit = s.game.units.get_mut(s.u1);
    unit.stamina.change_by(-51);
    commands::movement(&mut s.game, s.u1, s.area_two);
    assert_eq!(s.game.units.get(s.u1).unwrap().area_id, s.area_one);
    assert_eq!(s.game.units.get(s.u1).unwrap().stamina.val(), 49);
}

#[test]
fn menu_navigation_wraps() {
    let mut game = Game::new();
    game.menus[0].add("a", MenuData::Empty);
    game.menus[0].add("b", MenuData::Empty);
    game.menus[0].add("c", MenuData::Empty);
    game.menu_id = 0;
    game.item_id = 0;
    game.navigate_up();
    assert_eq!(game.item_id, 2);
    game.navigate_down();
    assert_eq!(game.item_id, 0);
    game.navigate_down();
    assert_eq!(game.item_id, 1);
    game.navigate_up();
    assert_eq!(game.item_id, 0);
}

#[test]
fn attack_spends_resources_and_deals_damage() {
    let mut s = two_faction_game(weapon(10, 0, 0, 0, 1, 100), 10, 0, 0);
    commands::select(&mut s.game, s.u1);
    assert_eq!(s.game.selected_unit_id, Some(s.u1));
    commands::attack(&mut s.game, s.u2);
    assert_eq!(s.game.units.get(s.u2).unwrap().health.val(), 0);
    assert_eq!(s.game.units.get(s.u1).unwrap().stamina.val(), 0);
    let w1 = s.game.units.get(s.u1).unwrap().weapon_id;
    assert_eq!(s.game.weapons.get(w1).unwrap().ammo.val, 7);
    // The hit and the kill are both narrated, token for token.
    let texts: Vec<String> = s
        .game
        .logger
        .messages
        .iter()
        .map(|m| m.tokens.iter().map(|t| t.content.as_str()).collect())
        .collect();
    assert_eq!(texts[texts.len() - 2], "Iris hit (1) Moss for 10|0|0.");
    assert_eq!(texts[texts.len() - 1], "Moss was killed!");
}

#[test]
fn victory_scenario_runs_to_its_end() {
    // Faction A's unit attacks faction B's sole unit with base damage 10,
    // one roll, certain accuracy; after the turn ends, the fallen unit and
    // the defeated faction are gone, the queue is empty and nobody acts.
    let mut s = two_faction_game(weapon(10, 0, 0, 0, 1, 100), 10, 0, 0);
    commands::select(&mut s.game, s.u1);
    commands::attack(&mut s.game, s.u2);
    assert_eq!(s.game.units.get(s.u2).unwrap().health.val(), 0);

    // The queue rotates B first; B is defeated in the same prune pass.
    commands::end_turn(&mut s.game);
    assert!(s.game.units.get(s.u2).is_none());
    assert!(s.game.factions.get(s.faction_b).is_none());
    assert!(s.game.factions.get(s.faction_a).is_some());
    assert!(s.game.units.get(s.u1).is_some());
    assert_eq!(s.game.turn_queue.len(), 0);
    assert_eq!(s.game.current_faction_id, None);
    assert_eq!(s.game.selected_unit_id, None);
    assert!(!s.game.areas.get(s.area_one).unwrap().units.contains(&s.u2));
    // The narration recorded the defeat and the victory, in that order.
    let texts: Vec<String> = s
        .game
        .logger
        .messages
        .iter()
        .map(|m| m.tokens.iter().map(|t| t.content.as_str()).collect())
        .collect();
    assert!(texts.contains(&String::from("Briar was defeated!")));
    assert_eq!(texts.last().unwrap(), "Azure is victorious!");
}

#[test]
fn prune_removes_defeated_factions_in_one_pass() {
    let mut s = two_faction_game(weapon(10, 0, 0, 0, 1, 100), 10, 0, 0);
    let unit = s.game.units.get_mut(s.u2);
    unit.health.change_by(-10);
    assert_eq!(s.game.units.get(s.u2).unwrap().health.val(), 0);
    commands::prune(&mut s.game);
    assert!(s.game.units.get(s.u2).is_none());
    assert!(s.game.factions.get(s.faction_b).is_none());
    assert!(!s.game.turn_queue.contains(&s.faction_b));
    assert!(s.game.turn_queue.contains(&s.faction_a));
    assert!(!s.game.areas.get(s.area_one).unwrap().units.contains(&s.u2));
}

#[test]
fn reload_refills_and_costs_stamina() {
    let mut s = two_faction_game(weapon(10, 0, 0, 0, 3, 100), 10, 0, 0);
    commands::select(&mut s.game, s.u1);
    commands::attack(&mut s.game, s.u2);
    let w1 = s.game.units.get(s.u1).unwrap().weapon_id;
    assert_eq!(s.game.weapons.get(w1).unwrap().ammo.val, 5);
    commands::reload(&mut s.game, s.u1);
    assert_eq!(s.game.weapons.get(w1).unwrap().ammo.val, 8);
    assert_eq!(s.game.units.get(s.u1).unwrap().stamina.val(), 0);
    // Reloading a full weapon is a silent no-op.
    let before = s.game.units.get(s.u1).unwrap().stamina.val();
    commands::reload(&mut s.game, s.u1);
    assert_eq!(s.game.weapons.get(w1).unwrap().ammo.val, 8);
    assert_eq!(s.game.units.get(s.u1).unwrap().stamina.val(), before);
}

#[test]
fn end_turn_regenerates_stamina_by_speed() {
    let mut s = two_faction_game(weapon(10, 0, 0, 0, 1, 100), 10, 0, 0);
    {
        let unit = s.game.units.get_mut(s.u2);
        unit.stamina.change_by(-100);
    }
    // B is at the front of the queue and becomes the acting faction.
    commands::end_turn(&mut s.game);
    assert_eq!(s.game.current_faction_id, Some(s.faction_b));
    assert_eq!(s.game.units.get(s.u2).unwrap().stamina.val(), 25);
    assert_eq!(s.game.units.get(s.u2).unwrap().stamina.change(), 25);
    // The idle faction's trackers are cleared, values untouched.
    assert_eq!(s.game.units.get(s.u1).unwrap().stamina.val(), 100);
    assert_eq!(s.game.units.get(s.u1).unwrap().health.change(), 0);
}

#[test]
fn commands_menu_lists_only_legal_actions() {
    let mut s = two_faction_game(weapon(10, 0, 0, 0, 1, 100), 10, 0, 0);
    s.game.update_commands_menu();
    // No selection yet: Select (a living member exists) and End Turn.
    let data: Vec<MenuData> =
        s.game.menus[0].items().iter().map(|i| *i.data()).collect();
    assert_eq!(data, [MenuData::ChangeMenu { menu_id: 1 }, MenuData::EndTurn].to_vec());

    commands::select(&mut s.game, s.u1);
    s.game.update_commands_menu();
    let data: Vec<MenuData> =
        s.game.menus[0].items().iter().map(|i| *i.data()).collect();
    // With a full-stamina, loaded unit selected: Attack and Move appear,
    // and the selected unit itself is no longer offered for selection.
    assert_eq!(
        data,
        [
            MenuData::ChangeMenu { menu_id: 2 },
            MenuData::ChangeMenu { menu_id: 3 },
            MenuData::EndTurn,
        ]
        .to_vec()
    );
    assert_eq!(s.game.selectable, Vec::<Gid>::new());
    assert_eq!(s.game.targetable, [s.u2].to_vec());
    assert_eq!(s.game.reachable, [s.area_two].to_vec());
}

#[test]
fn select_menu_mirrors_the_selectable_cache() {
    let mut s = two_faction_game(weapon(10, 0, 0, 0, 1, 100), 10, 0, 0);
    s.game.update_commands_menu();
    s.game.update_select_menu();
    let items = s.game.menus[1].items();
    assert_eq!(items.len(), 2);
    assert_eq!(*items[0].data(), MenuData::SelectUnit { unit_id: s.u1 });
    assert_eq!(*items[1].data(), MenuData::ChangeMenu { menu_id: 0 });
    assert_eq!(items[0].text(), "Iris");
    assert_eq!(items[1].text(), "Back");
}

#[test]
fn confirm_dispatches_the_highlighted_item() {
    let mut s = two_faction_game(weapon(10, 0, 0, 0, 1, 100), 10, 0, 0);
    s.game.refresh();
    assert!(!s.game.menu_changed);
    // Confirm "Select": switches to the select menu.
    commands::confirm(&mut s.game);
    assert_eq!(s.game.menu_id, 1);
    s.game.refresh();
    // Confirm the first unit: it becomes selected, back on commands menu.
    commands::confirm(&mut s.game);
    assert_eq!(s.game.selected_unit_id, Some(s.u1));
    assert_eq!(s.game.menu_id, 0);
}

#[test]
fn deselect_clears_the_selection() {
    let mut s = two_faction_game(weapon(10, 0, 0, 0, 1, 100), 10, 0, 0);
    commands::select(&mut s.game, s.u1);
    commands::deselect(&mut s.game);
    assert_eq!(s.game.selected_unit_id, None);
    let message = s.game.logger.messages.back().unwrap();
    let text: String = message.tokens.iter().map(|t| t.content.as_str()).collect();
    assert_eq!(text, "Deselected Iris.");
}

#[test]
fn logger_records_narration() {
    let mut s = two_faction_game(weapon(10, 0, 0, 0, 1, 100), 10, 0, 0);
    let before = s.game.logger.messages.len();
    commands::select(&mut s.game, s.u1);
    assert_eq!(s.game.logger.messages.len(), before + 1);
    let message = s.game.logger.messages.back().unwrap();
    let text: String = message.tokens.iter().map(|t| t.content.as_str()).collect();
    assert_eq!(text, "Selected Iris.");
    commands::empty(&mut s.game);
    let message = s.game.logger.messages.back().unwrap();
    assert_eq!(message.tokens[0].content, "Nothing happens.");
}

#[test]
fn decimal_rendering_is_exact() {
    assert_eq!(dec_string(0), "0");
    assert_eq!(dec_string(7), "7");
    assert_eq!(dec_string(10), "10");
    assert_eq!(dec_string(12345), "12345");
    assert_eq!(dec_string(u64::MAX), "18446744073709551615");
}

#[test]
fn world_edges_are_directed() {
    let mut s = two_faction_game(weapon(10, 0, 0, 0, 1, 100), 10, 0, 0);
    assert!(s.game.world.contains_edge(s.area_one, s.area_two));
    assert!(!s.game.world.contains_edge(s.area_two, s.area_one));
    assert!(s.game.world.contains_node(s.area_one));
    assert_eq!(s.game.world.add_edge(s.area_one, s.area_two, Edge), Some(Edge));
}

#[test]
fn grid_addresses_row_major() {
    let grid = Grid::from_slice(&[1, 2, 3, 4, 5, 6], 3, 2);
    assert_eq!(grid.columns(), 3);
    assert_eq!(grid.rows(), 2);
    assert_eq!(grid.size(), 6);
    assert_eq!(grid.get_at(0, 0), Some(&1));
    assert_eq!(grid.get_at(2, 1), Some(&6));
    assert_eq!(grid.get_at(3, 0), None);
    assert_eq!(grid.get_at(-1, 0), None);
    assert_eq!(grid.get(5), Some(&6));
    assert_eq!(grid.get(6), None);
    let filled = Grid::filled(9u8, 2, 2);
    assert_eq!(filled.data(), &[9, 9, 9, 9]);
}

#[test]
fn grid2d_linear_and_pair_indexing_agree() {
    let grid: Grid2D<i32> = Grid2D::with_size(8, 8);
    let a = Index::<usize, i32>::get(&grid, 9);
    let b = Index::<(usize, usize), i32>::get(&grid, (1, 1));
    assert_eq!(a.is_some(), true);
    assert_eq!(b.is_some(), true);
    assert_eq!(a, b);
    assert_eq!(grid.width(), 8);
    assert_eq!(grid.height(), 8);
}

#[test]
fn clip_contains_and_inverts() {
    let clip = Clip::new(2, 2, 4, 4, false);
    assert!(clip.contains(2, 2));
    assert!(clip.contains(5, 5));
    assert!(!clip.contains(6, 6));
    let inverted = Clip::new(2, 2, 4, 4, true);
    assert!(!inverted.contains(3, 3));
    assert!(inverted.contains(0, 0));
}

#[test]
fn palette_and_tiles() {
    assert_eq!(Colour::new(1, 2, 3), Colour { r: 1, g: 2, b: 3 });
    assert_eq!(Colour::white(), Colour { r: 255, g: 255, b: 255 });
    let tile = Tile::new();
    assert_eq!(tile.glyph, ' ');
    assert_eq!(tile.fg, Colour::white());
    assert_eq!(tile.bg, Colour::black());
}

#[test]
fn menu_collects_labelled_payloads() {
    let mut menu: Menu<u32> = Menu::new("COMMANDS");
    assert_eq!(menu.title(), "COMMANDS");
    assert_eq!(menu.len(), 0);
    menu.add("first", 1);
    menu.add("second", 2);
    assert_eq!(menu.len(), 2);
    assert_eq!(menu.get(0).unwrap().text(), "first");
    assert_eq!(*menu.get(1).unwrap().data(), 2);
    assert!(menu.get(2).is_none());
    menu.clear();
    assert_eq!(menu.len(), 0);
}

#[test]
fn words_split_after_each_space() {
    let words = tactics::messages::split_words("You end the turn.");
    assert_eq!(words, ["You ", "end ", "the ", "turn."].map(String::from).to_vec());
    assert_eq!(tactics::messages::split_words(""), Vec::<String>::new());
    assert_eq!(tactics::messages::split_words("a "), ["a "].map(String::from).to_vec());
}

#[test]
fn fragments_stay_inside_the_panel() {
    let mut s = two_faction_game(weapon(10, 0, 0, 0, 1, 100), 10, 0, 0);
    commands::select(&mut s.game, s.u1);
    commands::empty(&mut s.game);
    let frags = tactics::messages::organise_messages(10, 4, &s.game.logger.messages);
    assert!(!frags.is_empty());
    for f in &frags {
        assert!(f.x >= 0);
        assert!(f.y >= 0 && f.y < 4);
        assert!(f.x as usize + f.content.chars().count() <= 10);
    }
    // The newest message is laid out first, from the panel's origin.
    assert_eq!(frags[0].x, 0);
    assert_eq!(frags[0].y, 0);
    assert_eq!(frags[0].content, "Nothing ");
}

#[test]
fn names_resolve_to_live_handles() {
    let s = two_faction_game(weapon(10, 0, 0, 0, 1, 100), 10, 0, 0);
    let azure = tactics::scenario::find_faction_by_name(&s.game.factions, &String::from("Azure"));
    assert_eq!(azure, Some(s.faction_a));
    let none = tactics::scenario::find_faction_by_name(&s.game.factions, &String::from("Crown"));
    assert_eq!(none, None);
    let hall = tactics::scenario::find_area_by_name(&s.game.areas, &String::from("Hall"));
    assert_eq!(hall, Some(s.area_two));
}
