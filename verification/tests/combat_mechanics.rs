use void_reckoning::combat::mechanics::{Armor, DamageSource, DamageType};
use void_reckoning::combat::{CombatUnit, CoverType, Weapon, WeaponType};
use void_reckoning::fixed::SCALE;

fn whole(units: i64) -> i64 {
    units * SCALE
}

fn defender() -> CombatUnit {
    CombatUnit::new(7, "defender".to_string(), 1, whole(1000))
}

fn weapon(kind: WeaponType, damage: i64) -> Weapon {
    Weapon {
        name: "gun".to_string(),
        weapon_type: kind,
        range: whole(100),
        damage,
        accuracy: SCALE,
        cooldown: whole(2),
        current_cooldown: 0,
    }
}

#[test]
fn kinetic_armor_of_one_hundred_halves_damage() {
    let mut unit = defender();
    unit.armor = whole(100);
    assert_eq!(unit.mitigation_factor(DamageType::Kinetic), SCALE / 2);
    assert_eq!(unit.mitigate_damage(whole(100), DamageType::Kinetic), whole(50));
}

#[test]
fn half_charged_shields_absorb_a_quarter_of_energy_damage() {
    let mut unit = defender();
    unit.max_shields = whole(100);
    unit.shields = whole(50);
    assert_eq!(unit.mitigation_factor(DamageType::Energy), SCALE / 4);
    assert_eq!(unit.mitigate_damage(whole(100), DamageType::Energy), whole(75));
}

#[test]
fn energy_damage_without_shield_capacity_is_unmitigated() {
    let unit = defender();
    assert_eq!(unit.mitigation_factor(DamageType::Energy), 0);
    assert_eq!(unit.mitigate_damage(whole(100), DamageType::Energy), whole(100));
}

#[test]
fn explosive_damage_ignores_armor_and_shields() {
    let mut unit = defender();
    unit.armor = whole(900);
    unit.max_shields = whole(100);
    unit.shields = whole(100);
    assert_eq!(unit.mitigate_damage(whole(100), DamageType::Explosive), whole(100));
    unit.cover = CoverType::Light;
    assert_eq!(unit.mitigate_damage(whole(100), DamageType::Explosive), whole(75));
}

#[test]
fn heavy_cover_halves_unarmored_kinetic_damage() {
    let mut unit = defender();
    unit.cover = CoverType::Heavy;
    assert_eq!(unit.mitigate_damage(whole(100), DamageType::Kinetic), whole(50));
}

#[test]
fn cover_factors_are_quarters() {
    let mut unit = defender();
    assert_eq!(unit.cover_factor(), 0);
    unit.cover = CoverType::Light;
    assert_eq!(unit.cover_factor(), 250_000);
    unit.cover = CoverType::Heavy;
    assert_eq!(unit.cover_factor(), 500_000);
    unit.cover = CoverType::Fortified;
    assert_eq!(unit.cover_factor(), 750_000);
    assert_eq!(unit.mitigate_damage(whole(100), DamageType::Kinetic), whole(25));
}

#[test]
fn negative_damage_is_floored_at_zero() {
    let unit = defender();
    assert_eq!(unit.mitigate_damage(-whole(5), DamageType::Kinetic), 0);
    assert_eq!(unit.mitigate_damage(0, DamageType::Explosive), 0);
}

#[test]
fn shield_overflow_bleeds_into_health() {
    let mut unit = defender();
    unit.max_shields = whole(100);
    unit.shields = whole(10);
    // Raw 31.578948 mitigates to 30 whole units at a tenth of shield charge:
    // pick the raw amount whose mitigated value is exactly 30.
    let factor = unit.mitigation_factor(DamageType::Energy);
    assert_eq!(factor, 50_000);
    let raw = whole(30) * SCALE / (SCALE - factor) + 1;
    assert_eq!(unit.mitigate_damage(raw, DamageType::Energy), whole(30));
    let destroyed = unit.apply_damage(raw, DamageType::Energy);
    assert!(!destroyed);
    assert_eq!(unit.shields, 0);
    assert_eq!(unit.hp, whole(1000) - whole(20));
    assert!(unit.is_alive);
}

#[test]
fn energy_damage_below_shield_charge_leaves_health_alone() {
    let mut unit = defender();
    unit.max_shields = whole(100);
    unit.shields = whole(100);
    let destroyed = unit.apply_damage(whole(40), DamageType::Energy);
    assert!(!destroyed);
    assert_eq!(unit.shields, whole(80));
    assert_eq!(unit.hp, whole(1000));
}

#[test]
fn lethal_damage_clamps_health_and_clears_alive_flag() {
    let mut unit = defender();
    let destroyed = unit.apply_damage(whole(5000), DamageType::Kinetic);
    assert!(destroyed);
    assert_eq!(unit.hp, 0);
    assert!(!unit.is_alive);
    assert!(!unit.is_alive());
    let again = unit.apply_damage(whole(10), DamageType::Kinetic);
    assert!(!again);
    assert_eq!(unit.hp, 0);
}

#[test]
fn damage_never_raises_health() {
    let mut unit = defender();
    unit.armor = whole(37);
    let before = unit.hp;
    unit.apply_damage(whole(13), DamageType::Kinetic);
    assert!(unit.hp <= before);
    assert!(unit.hp > 0);
    assert_eq!(unit.hp, before - 9_489_064);
}

#[test]
fn weapon_types_map_to_damage_types() {
    assert_eq!(weapon(WeaponType::Kinetic, 1).get_damage_type(), DamageType::Kinetic);
    assert_eq!(weapon(WeaponType::Energy, 1).get_damage_type(), DamageType::Energy);
    assert_eq!(weapon(WeaponType::Missile, 1).get_damage_type(), DamageType::Explosive);
    assert_eq!(weapon(WeaponType::Beam, 1).get_damage_type(), DamageType::Energy);
    assert_eq!(weapon(WeaponType::Fighter, 1).get_damage_type(), DamageType::Kinetic);
}

#[test]
fn rolled_damage_scales_base_damage() {
    let gun = weapon(WeaponType::Kinetic, whole(100));
    assert_eq!(gun.calculate_damage(1_000_000), whole(100));
    assert_eq!(gun.calculate_damage(900_000), whole(90));
    assert_eq!(gun.calculate_damage(1_100_000), whole(110));
    assert_eq!(gun.get_accuracy(), SCALE);
    let odd = weapon(WeaponType::Kinetic, 7);
    assert_eq!(odd.calculate_damage(900_000), 6);
    let healing = weapon(WeaponType::Kinetic, -7);
    assert_eq!(healing.calculate_damage(900_000), -6);
}

#[test]
fn new_unit_starts_at_full_health() {
    let unit = CombatUnit::new(3, "scout".to_string(), 2, whole(40));
    assert_eq!(unit.id, 3);
    assert_eq!(unit.name, "scout");
    assert_eq!(unit.faction_idx, 2);
    assert_eq!(unit.hp, whole(40));
    assert_eq!(unit.max_hp, whole(40));
    assert_eq!(unit.shields, 0);
    assert_eq!(unit.integrity, SCALE);
    assert!(unit.weapons.is_empty());
    assert_eq!(unit.position, (0, 0));
    assert_eq!(unit.target_id, None);
    assert!(unit.is_alive);
    assert_eq!(unit.cover, CoverType::Exposed);
    let husk = CombatUnit::new(4, "husk".to_string(), 2, 0);
    assert!(!husk.is_alive);
}

#[test]
fn weapon_type_and_cover_are_read_from_plain_values() {
    assert_eq!(WeaponType::from_name("Energy"), WeaponType::Energy);
    assert_eq!(WeaponType::from_name("Missile"), WeaponType::Missile);
    assert_eq!(WeaponType::from_name("Beam"), WeaponType::Beam);
    assert_eq!(WeaponType::from_name("Fighter"), WeaponType::Fighter);
    assert_eq!(WeaponType::from_name("Kinetic"), WeaponType::Kinetic);
    assert_eq!(WeaponType::from_name("energy"), WeaponType::Kinetic);
    assert_eq!(CoverType::from_code(0), CoverType::Exposed);
    assert_eq!(CoverType::from_code(1), CoverType::Light);
    assert_eq!(CoverType::from_code(2), CoverType::Heavy);
    assert_eq!(CoverType::from_code(3), CoverType::Fortified);
    assert_eq!(CoverType::from_code(9), CoverType::Exposed);
}
