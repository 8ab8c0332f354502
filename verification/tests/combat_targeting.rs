use void_reckoning::combat::targeting::{
    cell_coordinate_of, cell_key_of, find_best_target, find_best_target_spatial, SpatialHash,
};
use void_reckoning::combat::{BattleState, CombatUnit, Weapon, WeaponType};
use void_reckoning::fixed::SCALE;

fn whole(units: i64) -> i64 {
    units * SCALE
}

fn unit_at(id: u32, faction: u8, x: i64, y: i64) -> CombatUnit {
    let mut unit = CombatUnit::new(id, format!("unit-{}", id), faction, whole(100));
    unit.position = (whole(x), whole(y));
    unit
}

fn battle(units: Vec<CombatUnit>) -> BattleState {
    let mut state = BattleState::new(whole(500), whole(500));
    for unit in units {
        state.add_unit(unit);
    }
    state
}

#[test]
fn nearest_enemy_is_acquired() {
    let state = battle(vec![unit_at(1, 0, 0, 0), unit_at(2, 1, 10, 0), unit_at(3, 1, 0, 20)]);
    assert_eq!(find_best_target(&state.units[0], &state), Some(2));
}

#[test]
fn own_faction_is_never_acquired() {
    let state = battle(vec![
        unit_at(1, 0, 0, 0),
        unit_at(4, 0, 1, 0),
        unit_at(2, 1, 10, 0),
        unit_at(3, 1, 20, 0),
    ]);
    assert_eq!(find_best_target(&state.units[0], &state), Some(2));
    let hash = SpatialHash::build(&state, whole(25));
    assert_eq!(find_best_target_spatial(&state.units[0], &state, &hash), Some(2));
}

#[test]
fn attacker_never_targets_itself_or_the_dead() {
    let mut corpse = unit_at(2, 1, 1, 0);
    corpse.hp = 0;
    corpse.is_alive = false;
    let state = battle(vec![unit_at(1, 0, 0, 0), corpse, unit_at(3, 1, 30, 0)]);
    assert_eq!(find_best_target(&state.units[0], &state), Some(3));
    let alone = battle(vec![unit_at(1, 0, 0, 0), unit_at(5, 0, 3, 3)]);
    assert_eq!(find_best_target(&alone.units[0], &alone), None);
    let hash = SpatialHash::build(&alone, whole(10));
    assert_eq!(find_best_target_spatial(&alone.units[0], &alone, &hash), None);
}

#[test]
fn ties_go_to_the_lowest_roster_position() {
    let state = battle(vec![
        unit_at(1, 0, 0, 0),
        unit_at(9, 1, 0, 10),
        unit_at(2, 1, 10, 0),
        unit_at(3, 1, -10, 0),
    ]);
    assert_eq!(find_best_target(&state.units[0], &state), Some(9));
    let hash = SpatialHash::build(&state, whole(7));
    assert_eq!(find_best_target_spatial(&state.units[0], &state, &hash), Some(9));
}

#[test]
fn indexed_search_falls_back_beyond_the_search_radius() {
    let state = battle(vec![unit_at(1, 0, 0, 0), unit_at(2, 1, 400, 300), unit_at(3, 1, 300, 390)]);
    let hash = SpatialHash::build(&state, whole(20));
    assert_eq!(find_best_target(&state.units[0], &state), Some(3));
    assert_eq!(find_best_target_spatial(&state.units[0], &state, &hash), Some(3));
}

#[test]
fn indexed_search_prefers_the_nearer_unit_outside_the_square_corner() {
    // One enemy sits in the corner of the searched square, a nearer one just
    // outside the square along an axis.
    let state = battle(vec![unit_at(1, 0, 0, 0), unit_at(2, 1, 49, 49), unit_at(3, 1, 60, 0)]);
    let hash = SpatialHash::build(&state, whole(10));
    assert_eq!(find_best_target(&state.units[0], &state), Some(3));
    assert_eq!(find_best_target_spatial(&state.units[0], &state, &hash), Some(3));
}

#[test]
fn indexed_and_exhaustive_search_agree_on_a_grid_of_units() {
    let mut units = Vec::new();
    let mut id = 0;
    for x in 0..7 {
        for y in 0..7 {
            id += 1;
            let mut unit = unit_at(id, (id % 3) as u8, x * 17 - 40, y * 13 - 35);
            if id % 5 == 0 {
                unit.hp = 0;
                unit.is_alive = false;
            }
            units.push(unit);
        }
    }
    let state = battle(units);
    for cell in [1, 9, 30, 200] {
        let hash = SpatialHash::build(&state, whole(cell));
        for attacker in &state.units {
            assert_eq!(
                find_best_target_spatial(attacker, &state, &hash),
                find_best_target(attacker, &state)
            );
        }
    }
}

#[test]
fn search_radius_is_longest_range_but_at_least_fifty() {
    let mut unit = unit_at(1, 0, 0, 0);
    assert_eq!(unit.search_radius(), whole(50));
    unit.weapons.push(Weapon {
        name: "pistol".to_string(),
        weapon_type: WeaponType::Kinetic,
        range: whole(10),
        damage: whole(1),
        accuracy: SCALE,
        cooldown: 0,
        current_cooldown: 0,
    });
    assert_eq!(unit.search_radius(), whole(50));
    unit.weapons.push(Weapon {
        name: "lance".to_string(),
        weapon_type: WeaponType::Beam,
        range: whole(120),
        damage: whole(1),
        accuracy: SCALE,
        cooldown: 0,
        current_cooldown: 0,
    });
    assert_eq!(unit.search_radius(), whole(120));
}

#[test]
fn cells_round_down_and_keys_are_distinct() {
    assert_eq!(cell_coordinate_of(whole(25), whole(10)), 2);
    assert_eq!(cell_coordinate_of(whole(30), whole(10)), 3);
    assert_eq!(cell_coordinate_of(-1, whole(10)), -1);
    assert_eq!(cell_coordinate_of(-whole(10), whole(10)), -1);
    assert_eq!(cell_coordinate_of(-whole(10) - 1, whole(10)), -2);
    assert_eq!(cell_coordinate_of(0, whole(10)), 0);
    assert_ne!(cell_key_of(1, 2), cell_key_of(2, 1));
    assert_ne!(cell_key_of(-1, 0), cell_key_of(0, -1));
    assert_eq!(cell_key_of(i64::MIN, i64::MIN), 0);
    assert_eq!(cell_key_of(i64::MAX, i64::MAX), u128::MAX);
}

#[test]
fn index_holds_living_units_by_cell() {
    let mut corpse = unit_at(4, 1, 3, 3);
    corpse.hp = 0;
    corpse.is_alive = false;
    let state = battle(vec![
        unit_at(1, 0, 5, 5),
        unit_at(2, 1, 7, 2),
        unit_at(3, 1, 15, 5),
        corpse,
        unit_at(5, 0, -1, -1),
    ]);
    let hash = SpatialHash::build(&state, whole(10));
    assert_eq!(hash.cell_size, whole(10));
    assert_eq!(hash.cells.get(&cell_key_of(0, 0)), Some(&vec![1, 2]));
    assert_eq!(hash.cells.get(&cell_key_of(1, 0)), Some(&vec![3]));
    assert_eq!(hash.cells.get(&cell_key_of(-1, -1)), Some(&vec![5]));
    assert_eq!(hash.cells.len(), 3);
    assert_eq!(hash.get_nearby((whole(5), whole(5)), whole(4)), vec![1, 2]);
    assert_eq!(hash.get_nearby((whole(5), whole(5)), whole(6)), vec![5, 1, 2, 3]);
    assert_eq!(hash.get_nearby((whole(5), whole(5)), -whole(20)), Vec::<u32>::new());
    let mut hash = SpatialHash::new(whole(10));
    assert!(hash.cells.is_empty());
    hash.insert(&state.units[2]);
    assert_eq!(hash.cells.get(&cell_key_of(1, 0)), Some(&vec![3]));
}

#[test]
fn lookup_resolves_identifiers_to_units() {
    let mut state = battle(vec![unit_at(1, 0, 0, 0), unit_at(2, 1, 10, 0)]);
    assert_eq!(state.find_slot(2), Some(1));
    assert_eq!(state.find_slot(7), None);
    assert_eq!(state.get_unit(2).map(|u| u.position), Some((whole(10), 0)));
    assert!(state.get_unit(7).is_none());
    if let Some(unit) = state.get_unit_mut(1) {
        unit.speed = whole(3);
    }
    assert_eq!(state.units[0].speed, whole(3));
    assert!(state.get_unit_mut(7).is_none());
    assert_eq!(state.turn, 0);
    assert_eq!(state.time_elapsed, 0);
    assert_eq!(state.grid_size, (whole(500), whole(500)));
}
