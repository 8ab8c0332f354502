use void_reckoning::combat::engine::{destruction_event, draw_rolls, BattleEngine};
use void_reckoning::combat::tick::{rolls_are_valid, DamageEvent};
use void_reckoning::combat::mechanics::DamageType;
use void_reckoning::combat::{BattleState, CombatUnit, CoverType, Weapon, WeaponType};
use void_reckoning::fixed::{isqrt, SCALE};
use void_reckoning::observability::{CorrelationContext, EventLog, EventSeverity};

fn whole(units: i64) -> i64 {
    units * SCALE
}

fn gun(kind: WeaponType, range: i64, damage: i64, cooldown: i64) -> Weapon {
    Weapon {
        name: "gun".to_string(),
        weapon_type: kind,
        range: whole(range),
        damage: whole(damage),
        accuracy: SCALE,
        cooldown: whole(cooldown),
        current_cooldown: 0,
    }
}

fn unit_at(id: u32, faction: u8, hp: i64, x: i64, y: i64) -> CombatUnit {
    let mut unit = CombatUnit::new(id, format!("unit-{}", id), faction, whole(hp));
    unit.position = (whole(x), whole(y));
    unit
}

fn duel() -> BattleEngine {
    let mut engine = BattleEngine::new(whole(500), whole(500));
    let mut a = unit_at(1, 0, 100, 0, 0);
    a.weapons.push(gun(WeaponType::Kinetic, 50, 60, 2));
    let b = unit_at(2, 1, 100, 30, 0);
    engine.add_unit(a);
    engine.add_unit(b);
    engine
}

#[test]
fn one_targeting_pass_assigns_the_nearer_enemy() {
    let mut state = BattleState::new(whole(500), whole(500));
    state.add_unit(unit_at(1, 0, 100, 0, 0));
    state.add_unit(unit_at(2, 1, 100, 10, 0));
    state.add_unit(unit_at(3, 1, 100, 0, 20));
    state.add_unit(unit_at(4, 0, 100, 1, 0));
    state.acquire_targets();
    assert_eq!(state.units[0].target_id, Some(2));
    assert_eq!(state.units[1].target_id, Some(4));
    assert_eq!(state.units[2].target_id, Some(1));
    assert_eq!(state.units[3].target_id, Some(2));
}

#[test]
fn units_keep_a_living_target() {
    let mut state = BattleState::new(whole(500), whole(500));
    let mut a = unit_at(1, 0, 100, 0, 0);
    a.target_id = Some(3);
    state.add_unit(a);
    state.add_unit(unit_at(2, 1, 100, 10, 0));
    state.add_unit(unit_at(3, 1, 100, 0, 20));
    state.acquire_targets();
    assert_eq!(state.units[0].target_id, Some(3));
    state.units[2].hp = 0;
    state.units[2].is_alive = false;
    state.acquire_targets();
    assert_eq!(state.units[0].target_id, Some(2));
    state.units[0].target_id = Some(77);
    state.acquire_targets();
    assert_eq!(state.units[0].target_id, Some(2));
}

#[test]
fn movement_closes_to_engagement_range() {
    let mut state = BattleState::new(whole(500), whole(500));
    let mut a = unit_at(1, 0, 100, 0, 0);
    a.speed = whole(10);
    a.target_id = Some(2);
    let mut b = unit_at(2, 1, 100, 100, 0);
    b.speed = whole(500);
    b.target_id = Some(1);
    let mut c = unit_at(3, 1, 100, 30, 40);
    c.speed = whole(5);
    c.target_id = Some(1);
    let mut d = unit_at(4, 1, 100, 0, 15);
    d.speed = whole(5);
    d.target_id = Some(1);
    let mut e = unit_at(5, 1, 100, 0, 90);
    e.target_id = Some(1);
    state.add_unit(a);
    state.add_unit(b);
    state.add_unit(c);
    state.add_unit(d);
    state.add_unit(e);
    state.move_units();
    // Speed-limited advance along the x axis.
    assert_eq!(state.units[0].position, (whole(10), 0));
    // Stops at the engagement range from where the target stood before it moved.
    assert_eq!(state.units[1].position, (whole(20), 0));
    // A 3-4-5 triangle: five units along the bearing are (3, 4) units.
    assert_eq!(state.units[2].position, (whole(27), whole(36)));
    // Already inside the engagement range.
    assert_eq!(state.units[3].position, (0, whole(15)));
    // No speed, no movement.
    assert_eq!(state.units[4].position, (0, whole(90)));
}

#[test]
fn integer_square_root_rounds_down() {
    assert_eq!(isqrt(0), 0);
    assert_eq!(isqrt(1), 1);
    assert_eq!(isqrt(3), 1);
    assert_eq!(isqrt(4), 2);
    assert_eq!(isqrt(99), 9);
    assert_eq!(isqrt(1_000_000_000_000), 1_000_000);
    assert_eq!(isqrt(u128::MAX), u64::MAX);
}

#[test]
fn step_resolves_a_duel() {
    let mut engine = duel();
    let rolls = vec![1_000_000];
    assert!(engine.step_with_rolls(&rolls));
    assert_eq!(engine.state.turn, 1);
    assert_eq!(engine.state.time_elapsed, SCALE);
    assert_eq!(engine.state.units[0].target_id, Some(2));
    assert_eq!(engine.state.units[1].target_id, Some(1));
    assert_eq!(engine.get_unit_status(2), Some((whole(40), 0, true)));
    // The weapon fired, restarted its two-tick cooldown and cooled by one tick.
    assert_eq!(engine.state.units[0].weapons[0].current_cooldown, whole(1));
    // Cooling down: no shot on the second tick.
    assert!(engine.step_with_rolls(&rolls));
    assert_eq!(engine.get_unit_status(2), Some((whole(40), 0, true)));
    assert_eq!(engine.state.units[0].weapons[0].current_cooldown, 0);
    // Third tick: the second hit destroys the defender and the battle concludes.
    assert!(!engine.step_with_rolls(&rolls));
    assert_eq!(engine.get_unit_status(2), Some((0, 0, false)));
    assert_eq!(engine.get_unit_status(1), Some((whole(100), 0, true)));
    assert_eq!(engine.get_unit_status(3), None);
    // Stepping a concluded battle produces no further combat.
    assert!(!engine.step_with_rolls(&rolls));
    assert_eq!(engine.get_unit_status(2), Some((0, 0, false)));
    assert_eq!(engine.state.turn, 4);
}

#[test]
fn rolls_scale_each_shot_and_default_to_neutral() {
    let mut engine = duel();
    engine.state.units[0].weapons[0].damage = whole(10);
    engine.state.units[0].weapons[0].cooldown = 0;
    assert!(engine.step_with_rolls(&vec![900_000]));
    assert_eq!(engine.get_unit_status(2), Some((whole(91), 0, true)));
    assert!(engine.step_with_rolls(&vec![1_100_000]));
    assert_eq!(engine.get_unit_status(2), Some((whole(80), 0, true)));
    assert!(engine.step_with_rolls(&Vec::new()));
    assert_eq!(engine.get_unit_status(2), Some((whole(70), 0, true)));
}

#[test]
fn battle_concludes_on_the_tick_the_last_enemy_dies() {
    let mut engine = BattleEngine::new(whole(500), whole(500));
    let mut a = unit_at(1, 0, 100, 0, 0);
    a.weapons.push(gun(WeaponType::Missile, 50, 500, 0));
    let mut b = unit_at(2, 0, 100, 0, 5);
    b.weapons.push(gun(WeaponType::Missile, 50, 500, 0));
    engine.add_unit(a);
    engine.add_unit(b);
    engine.add_unit(unit_at(3, 1, 100, 10, 0));
    engine.add_unit(unit_at(4, 1, 100, 40, 0));
    // Both attackers pick unit 3, the nearest; unit 4 survives the first tick.
    assert!(engine.step_with_rolls(&Vec::new()));
    assert_eq!(engine.get_unit_status(3), Some((0, 0, false)));
    assert_eq!(engine.get_unit_status(4), Some((whole(100), 0, true)));
    assert!(!engine.step_with_rolls(&Vec::new()));
    assert_eq!(engine.get_unit_status(4), Some((0, 0, false)));
}

#[test]
fn hits_on_one_defender_accumulate_in_queue_order() {
    let mut state = BattleState::new(whole(500), whole(500));
    let mut defender = unit_at(9, 1, 100, 0, 0);
    defender.max_shields = whole(100);
    defender.shields = whole(10);
    state.add_unit(defender);
    state.add_unit(unit_at(8, 1, 50, 0, 0));
    let events = vec![
        DamageEvent { target_id: 9, amount: whole(40), damage_type: DamageType::Kinetic },
        DamageEvent { target_id: 77, amount: whole(40), damage_type: DamageType::Kinetic },
        DamageEvent { target_id: 8, amount: whole(50), damage_type: DamageType::Explosive },
        DamageEvent { target_id: 9, amount: whole(80), damage_type: DamageType::Explosive },
        DamageEvent { target_id: 9, amount: whole(80), damage_type: DamageType::Explosive },
    ];
    let destroyed = state.apply_damage_events(&events);
    assert_eq!(destroyed, vec![8, 9]);
    assert_eq!(state.units[0].hp, 0);
    assert!(!state.units[0].is_alive);
    assert_eq!(state.units[0].shields, whole(10));
    assert_eq!(state.units[1].hp, 0);
}

#[test]
fn out_of_range_weapons_hold_fire() {
    let mut engine = duel();
    engine.state.units[0].weapons[0].range = whole(29);
    engine.state.units[0].weapons.push(gun(WeaponType::Energy, 30, 5, 0));
    assert!(engine.step_with_rolls(&Vec::new()));
    // Only the second weapon reaches the defender at distance 30.
    assert_eq!(engine.get_unit_status(2), Some((whole(95), 0, true)));
    assert_eq!(engine.state.pending_shots(), vec![(0, 1)]);
}

#[test]
fn repeated_runs_are_identical() {
    let rolls = vec![950_000, 1_050_000, 1_000_000, 990_000];
    let run = || {
        let mut engine = BattleEngine::new(whole(500), whole(500));
        for i in 0..6u32 {
            let mut unit = unit_at(i + 1, (i % 2) as u8, 60, (i as i64) * 25, (i as i64 % 3) * 40);
            unit.speed = whole(7);
            unit.armor = whole(20);
            unit.weapons.push(gun(WeaponType::Kinetic, 45, 30, 1));
            unit.weapons.push(gun(WeaponType::Missile, 80, 10, 3));
            engine.add_unit(unit);
        }
        let mut flags = Vec::new();
        for _ in 0..40 {
            flags.push(engine.step_with_rolls(&rolls));
        }
        (flags, engine.get_state(), engine.state.turn)
    };
    let first = run();
    let second = run();
    assert_eq!(first, second);
    assert_eq!(first.2, 40);
}

#[test]
fn health_invariant_holds_after_every_random_tick() {
    let mut engine = BattleEngine::new(whole(500), whole(500));
    for i in 0..8u32 {
        let mut unit = unit_at(i + 1, (i % 3) as u8, 50, (i as i64) * 15, (i as i64 % 4) * 20);
        unit.speed = whole(9);
        unit.max_shields = whole(20);
        unit.shields = whole(20);
        unit.weapons.push(gun(WeaponType::Energy, 60, 12, 1));
        engine.add_unit(unit);
    }
    for _ in 0..200 {
        let ongoing = engine.step();
        for unit in &engine.state.units {
            if unit.is_alive {
                assert!(0 < unit.hp && unit.hp <= unit.max_hp);
            } else {
                assert_eq!(unit.hp, 0);
            }
        }
        let mut factions: Vec<u8> =
            engine.state.units.iter().filter(|u| u.is_alive).map(|u| u.faction_idx).collect();
        factions.sort();
        factions.dedup();
        assert_eq!(ongoing, factions.len() > 1);
        assert_eq!(ongoing, engine.state.is_contested());
        if !ongoing {
            break;
        }
    }
}

#[test]
fn drawn_rolls_stay_within_ten_percent() {
    let rolls = draw_rolls(500);
    assert_eq!(rolls.len(), 500);
    assert!(rolls.iter().all(|r| (900_000..1_100_000).contains(r)));
    assert!(rolls.iter().any(|r| *r != rolls[0]));
    assert!(draw_rolls(0).is_empty());
}

#[test]
fn cover_is_set_by_identifier() {
    let mut engine = duel();
    engine.set_unit_cover(2, 2);
    assert_eq!(engine.state.units[1].cover, CoverType::Heavy);
    engine.set_unit_cover(2, 3);
    assert_eq!(engine.state.units[1].cover, CoverType::Fortified);
    engine.set_unit_cover(2, 1);
    assert_eq!(engine.state.units[1].cover, CoverType::Light);
    engine.set_unit_cover(2, 200);
    assert_eq!(engine.state.units[1].cover, CoverType::Exposed);
    engine.set_unit_cover(42, 3);
    assert_eq!(engine.state.units[0].cover, CoverType::Exposed);
}

#[test]
fn full_state_lists_every_unit() {
    let engine = duel();
    assert_eq!(
        engine.get_state(),
        vec![(1, 0, 0, whole(100), true), (2, whole(30), 0, whole(100), true)]
    );
}

#[test]
fn destruction_is_logged_under_a_child_context() {
    let mut engine = duel();
    engine.state.units[0].weapons[0].damage = whole(500);
    let log = EventLog::new();
    engine.set_event_log(log.clone());
    let context = CorrelationContext::new();
    let trace = context.trace_id.clone();
    let span = context.span_id.clone();
    engine.set_correlation_context(context);
    assert_eq!(engine.state.run_id, trace);
    assert!(!engine.step_with_rolls(&Vec::new()));
    let events = log.get_all();
    assert_eq!(events.len(), 1);
    assert_eq!(events[0].severity, EventSeverity::Info);
    assert_eq!(events[0].category, "Combat");
    assert_eq!(events[0].message, "Unit 2 destroyed by Unit Unknown");
    assert_eq!(events[0].context.trace_id, trace);
    assert_eq!(events[0].context.parent_id, Some(span));
    assert_ne!(events[0].context.span_id, events[0].context.parent_id.clone().unwrap());
    assert_eq!(events[0].data, None);
    assert!(events[0].timestamp > 0);
    log.clear();
    assert!(log.get_all().is_empty());
}

#[test]
fn destruction_event_names_the_unit() {
    let context = CorrelationContext::new();
    assert_eq!(context.trace_id.len(), 36);
    assert_eq!(context.span_id.len(), 36);
    assert_ne!(context.trace_id, context.span_id);
    assert_eq!(context.parent_id, None);
    let event = destruction_event(4_000_000_000, &context);
    assert_eq!(event.message, "Unit 4000000000 destroyed by Unit Unknown");
    let event = destruction_event(0, &context);
    assert_eq!(event.message, "Unit 0 destroyed by Unit Unknown");
}

#[test]
fn units_are_assembled_from_plain_values() {
    let weapon = Weapon::from_parts("lance".to_string(), "Beam", whole(90), whole(12), SCALE, whole(3));
    assert_eq!(weapon.weapon_type, WeaponType::Beam);
    assert_eq!(weapon.current_cooldown, 0);
    assert_eq!(weapon.cooldown, whole(3));
    let odd = Weapon::from_parts("club".to_string(), "Blunt", 0, 1, 2, 3);
    assert_eq!(odd.weapon_type, WeaponType::Kinetic);
    assert_eq!((odd.range, odd.damage, odd.accuracy, odd.cooldown), (0, 1, 2, 3));
    let unit = CombatUnit::assemble(
        5,
        "frigate".to_string(),
        2,
        whole(300),
        (whole(10), -whole(4)),
        vec![weapon],
        whole(6),
        whole(1),
        whole(50),
        whole(25),
        Some(2),
    );
    assert_eq!(unit.id, 5);
    assert_eq!(unit.name, "frigate");
    assert_eq!(unit.faction_idx, 2);
    assert_eq!((unit.hp, unit.max_hp), (whole(300), whole(300)));
    assert_eq!((unit.shields, unit.max_shields), (whole(50), whole(50)));
    assert_eq!(unit.armor, whole(25));
    assert_eq!(unit.position, (whole(10), -whole(4)));
    assert_eq!(unit.speed, whole(6));
    assert_eq!(unit.evasion, whole(1));
    assert_eq!(unit.cover, CoverType::Heavy);
    assert_eq!(unit.weapons.len(), 1);
    assert_eq!(unit.target_id, None);
    assert!(unit.is_alive);
    assert!(unit.is_well_formed());
    let bare = CombatUnit::assemble(6, "x".to_string(), 0, 1, (0, 0), Vec::new(), 0, 0, 0, 0, None);
    assert_eq!(bare.cover, CoverType::Exposed);
    let copy = unit.clone();
    assert_eq!(copy.name, unit.name);
    assert_eq!(copy.weapons[0].name, "lance");
    assert_eq!(copy.position, unit.position);
}

#[test]
fn invariant_checks_recognise_broken_units() {
    let mut unit = unit_at(1, 0, 100, 0, 0);
    assert!(unit.is_well_formed());
    unit.hp = unit.max_hp + 1;
    assert!(!unit.is_well_formed());
    unit.hp = 0;
    assert!(!unit.is_well_formed());
    unit.is_alive = false;
    assert!(unit.is_well_formed());
    unit.armor = -1;
    assert!(!unit.is_well_formed());
    unit.armor = 0;
    unit.position.1 = i64::MAX;
    assert!(!unit.is_well_formed());
    unit.position.1 = -1_000_000_000_000_000_000;
    assert!(unit.is_well_formed());
    unit.weapons.push(gun(WeaponType::Kinetic, 1, 1, 1));
    assert!(unit.weapons[0].is_well_formed());
    unit.weapons[0].damage = i64::MAX;
    assert!(!unit.weapons[0].is_well_formed());
    assert!(!unit.is_well_formed());

    let mut state = BattleState::new(0, 0);
    assert!(state.is_well_formed());
    assert!(state.has_distinct_ids());
    assert!(state.has_clock_room());
    state.add_unit(unit_at(1, 0, 100, 0, 0));
    state.add_unit(unit_at(2, 0, 100, 0, 0));
    assert!(state.is_well_formed());
    assert!(state.has_distinct_ids());
    state.add_unit(unit);
    assert!(!state.is_well_formed());
    assert!(!state.has_distinct_ids());
    state.turn = u32::MAX;
    assert!(!state.has_clock_room());
    state.turn = 0;
    state.time_elapsed = i64::MAX;
    assert!(!state.has_clock_room());
}

#[test]
fn rolls_outside_ten_percent_are_recognised() {
    assert!(rolls_are_valid(&Vec::new()));
    assert!(rolls_are_valid(&vec![900_000, 1_000_000, 1_100_000]));
    assert!(!rolls_are_valid(&vec![1_000_000, 899_999]));
    assert!(!rolls_are_valid(&vec![1_100_001]));
}

#[test]
fn tick_halves_compose_to_a_whole_tick() {
    let rolls = vec![1_050_000];
    let mut whole_tick = duel();
    let destroyed = whole_tick.state.advance(&rolls);
    let mut halves = duel();
    halves.state.begin_tick();
    assert_eq!(halves.state.turn, 1);
    assert_eq!(halves.state.units[0].target_id, Some(2));
    assert_eq!(halves.state.units[1].hp, whole(100));
    assert_eq!(halves.state.pending_shots(), vec![(0, 0)]);
    let events = halves.state.roll_events(&vec![(0, 0)], &rolls);
    assert_eq!(events.len(), 1);
    assert_eq!((events[0].target_id, events[0].amount), (2, whole(63)));
    assert_eq!(events[0].damage_type, DamageType::Kinetic);
    let also_destroyed = halves.state.resolve_tick(&rolls);
    assert_eq!(destroyed, also_destroyed);
    assert!(destroyed.is_empty());
    assert_eq!(halves.get_state(), whole_tick.get_state());
    assert_eq!(halves.state.units[1].hp, whole(37));
}

#[test]
fn fired_weapons_restart_and_all_weapons_cool() {
    let mut state = BattleState::new(0, 0);
    let mut a = unit_at(1, 0, 100, 0, 0);
    a.weapons.push(gun(WeaponType::Kinetic, 50, 1, 4));
    a.weapons.push(gun(WeaponType::Kinetic, 5, 1, 4));
    a.weapons[1].current_cooldown = whole(2);
    a.target_id = Some(2);
    state.add_unit(a);
    state.add_unit(unit_at(2, 1, 100, 30, 0));
    let fired = state.pending_shots();
    assert_eq!(fired, vec![(0, 0)]);
    state.reset_fired(&fired);
    assert_eq!(state.units[0].weapons[0].current_cooldown, whole(4));
    assert_eq!(state.units[0].weapons[1].current_cooldown, whole(2));
    state.tick_cooldowns();
    assert_eq!(state.units[0].weapons[0].current_cooldown, whole(3));
    assert_eq!(state.units[0].weapons[1].current_cooldown, whole(1));
    state.tick_cooldowns();
    assert_eq!(state.units[0].weapons[1].current_cooldown, 0);
    state.tick_cooldowns();
    assert_eq!(state.units[0].weapons[1].current_cooldown, 0);
    state.units[0].weapons[1].current_cooldown = 400_000;
    state.tick_cooldowns();
    assert_eq!(state.units[0].weapons[1].current_cooldown, -600_000);
}
