//! Damage and mitigation rules: how a weapon's base damage becomes a rolled
//! hit, how armor, shields and cover reduce it, and how the remainder is
//! taken from the defender's shields and health.
use vstd::prelude::*;
use crate::fixed::{mul_div, trunc_div, SCALE};
use crate::combat::{CombatUnit, CombatUnitView, CoverType, Weapon, WeaponType};

verus! {

/// Damage families that mitigation distinguishes.
#[derive(Debug, Clone, Copy, PartialEq, Eq, Structural)]
pub enum DamageType {
    Kinetic,
    Energy,
    Explosive,
}

/// Smallest damage variation factor (0.9), in fixed point.
pub const VARIATION_MIN: u32 = 900_000;

/// Largest damage variation factor (1.1), in fixed point.
pub const VARIATION_MAX: u32 = 1_100_000;

/// Variation factor of a hit that neither gains nor loses against the base
/// damage (1.0).
pub const VARIATION_NEUTRAL: u32 = 1_000_000;

/// Armor value at which kinetic damage is halved (100 whole units).
pub const ARMOR_HALVING: i64 = 100_000_000;

/// A variation factor within ten percent of neutral.
pub open spec fn valid_roll(roll: u32) -> bool {
    VARIATION_MIN <= roll <= VARIATION_MAX
}

/// The damage type each weapon type deals.
pub open spec fn damage_type_of(t: WeaponType) -> DamageType {
    match t {
        WeaponType::Kinetic => DamageType::Kinetic,
        WeaponType::Energy => DamageType::Energy,
        WeaponType::Missile => DamageType::Explosive,
        WeaponType::Beam => DamageType::Energy,
        WeaponType::Fighter => DamageType::Kinetic,
    }
}

/// Base damage scaled by a variation factor, rounded toward zero.
pub open spec fn rolled_damage(base: int, roll: int) -> int {
    trunc_div(base * roll, SCALE as int)
}

/// Fraction of kinetic damage that armor absorbs: `armor / (armor + 100)`,
/// a curve that approaches but never reaches one.
pub open spec fn kinetic_factor(armor: int) -> int {
    armor * SCALE / (armor + ARMOR_HALVING)
}

/// Fraction of energy damage that shields absorb: half of the current charge
/// fraction, and nothing where the unit has no shield capacity.
pub open spec fn energy_factor(shields: int, max_shields: int) -> int {
    if max_shields > 0 && shields > 0 {
        let charge = shields * SCALE / max_shields;
        (if charge > SCALE { SCALE as int } else { charge }) / 2
    } else {
        0
    }
}

/// Fraction of raw damage absorbed by armor or shields before cover applies.
pub open spec fn mitigation_factor(unit: CombatUnitView, damage_type: DamageType) -> int {
    match damage_type {
        DamageType::Kinetic => kinetic_factor(unit.armor),
        DamageType::Energy => energy_factor(unit.shields, unit.max_shields),
        DamageType::Explosive => 0,
    }
}

/// Fraction of damage absorbed by cover, whatever the damage type.
pub open spec fn cover_factor(cover: CoverType) -> int {
    match cover {
        CoverType::Exposed => 0,
        CoverType::Light => 250_000,
        CoverType::Heavy => 500_000,
        CoverType::Fortified => 750_000,
    }
}

/// Damage left after armor or shields and then cover have taken their share:
/// `raw * (1 - mitigation) * (1 - cover)`, never negative.
pub open spec fn mitigated_damage(unit: CombatUnitView, damage: int, damage_type: DamageType) -> int {
    if damage <= 0 {
        0
    } else {
        damage * (SCALE - mitigation_factor(unit, damage_type)) * (SCALE - cover_factor(unit.cover))
            / (SCALE * SCALE)
    }
}

/// The defender after one hit of raw `amount`. A dead unit is unchanged.
/// Energy damage against charged shields drains the shields first and only
/// the overflow reaches health; all other damage goes to health. Health that
/// falls to zero or below is set to zero and the unit is no longer alive.
pub open spec fn damaged(unit: CombatUnitView, amount: int, damage_type: DamageType) -> CombatUnitView {
    if !unit.is_alive {
        unit
    } else {
        let loss = mitigated_damage(unit, amount, damage_type);
        let through_shields = unit.shields > 0 && damage_type == DamageType::Energy;
        let shields = if through_shields {
            if unit.shields - loss < 0 { 0 } else { unit.shields - loss }
        } else {
            unit.shields
        };
        let hp = if through_shields {
            if unit.shields - loss < 0 { unit.hp + (unit.shields - loss) } else { unit.hp }
        } else {
            unit.hp - loss
        };
        if hp <= 0 {
            CombatUnitView { hp: 0, shields, is_alive: false, ..unit }
        } else {
            CombatUnitView { hp, shields, ..unit }
        }
    }
}

/// The mitigation fraction lies between nothing and everything.
pub proof fn lemma_mitigation_factor_bounds(unit: CombatUnitView, damage_type: DamageType)
    requires
        unit.armor >= 0,
    ensures
        0 <= mitigation_factor(unit, damage_type) <= SCALE,
{
    match damage_type {
        DamageType::Kinetic => {
            let a = unit.armor;
            let d = a + ARMOR_HALVING;
            assert(0 <= a * SCALE / d <= SCALE) by (nonlinear_arith)
                requires
                    0 <= a,
                    d == a + 100_000_000,
                    SCALE == 1_000_000,
            ;
        },
        DamageType::Energy => {
            if unit.max_shields > 0 && unit.shields > 0 {
                let s = unit.shields;
                let m = unit.max_shields;
                assert(0 <= s * SCALE / m) by (nonlinear_arith)
                    requires
                        0 < s,
                        0 < m,
                        SCALE == 1_000_000,
                ;
            }
        },
        DamageType::Explosive => {},
    }
}

/// Mitigated damage is never negative and never more than the raw damage.
pub proof fn lemma_mitigated_damage_bounds(unit: CombatUnitView, damage: int, damage_type: DamageType)
    requires
        unit.armor >= 0,
    ensures
        0 <= mitigated_damage(unit, damage, damage_type),
        mitigated_damage(unit, damage, damage_type) <= (if damage > 0 { damage } else { 0 }),
{
    lemma_mitigation_factor_bounds(unit, damage_type);
    if damage > 0 {
        let keep = SCALE - mitigation_factor(unit, damage_type);
        let open = SCALE - cover_factor(unit.cover);
        let whole = SCALE * SCALE;
        assert(0 <= damage * keep * open / whole <= damage) by (nonlinear_arith)
            requires
                damage > 0,
                0 <= keep <= 1_000_000,
                0 <= open <= 1_000_000,
                whole == 1_000_000_000_000,
        ;
    }
}

/// Explosive damage is reduced by cover alone: two defenders under the same
/// cover lose the same amount to it, whatever their armor and shields.
pub proof fn lemma_explosive_ignores_armor_and_shields(
    first: CombatUnitView,
    second: CombatUnitView,
    damage: int,
)
    requires
        first.cover == second.cover,
    ensures
        mitigated_damage(first, damage, DamageType::Explosive) == mitigated_damage(
            second,
            damage,
            DamageType::Explosive,
        ),
{
}

/// A hit never raises the defender's health or shields, and it keeps the
/// unit invariant.
pub proof fn lemma_damaged_never_heals(unit: CombatUnitView, amount: int, damage_type: DamageType)
    requires
        unit.well_formed(),
    ensures
        damaged(unit, amount, damage_type).well_formed(),
        damaged(unit, amount, damage_type).hp <= unit.hp,
        damaged(unit, amount, damage_type).shields <= unit.shields,
{
    lemma_mitigated_damage_bounds(unit, amount, damage_type);
}

/// Something that deals damage.
pub trait DamageSource {
    /// The source can roll damage without leaving the fixed-point range.
    spec fn damage_ready(&self) -> bool;

    /// The damage this source deals under a given variation factor.
    spec fn rolled(&self, roll: u32) -> int;

    /// The damage type this source deals.
    spec fn damage_type(&self) -> DamageType;

    /// Damage of one hit, given the variation factor drawn for it.
    fn calculate_damage(&self, roll: u32) -> (damage: i64)
        requires
            self.damage_ready(),
            valid_roll(roll),
        ensures
            damage == self.rolled(roll),
    ;

    fn get_damage_type(&self) -> (damage_type: DamageType)
        ensures
            damage_type == self.damage_type(),
    ;

    fn get_accuracy(&self) -> i64;
}

/// Something that reduces incoming damage.
pub trait Armor {
    /// The defender's coefficients admit the mitigation formula.
    spec fn armor_ready(&self) -> bool;

    /// The damage that gets through this defender's protection.
    spec fn mitigated(&self, damage: i64, damage_type: DamageType) -> int;

    /// Damage actually taken from the defender's resources for a raw hit.
    fn mitigate_damage(&self, damage: i64, damage_type: DamageType) -> (taken: i64)
        requires
            self.armor_ready(),
        ensures
            taken == self.mitigated(damage, damage_type),
            0 <= taken,
            taken <= (if damage > 0 { damage } else { 0 }),
    ;
}

impl DamageSource for Weapon {
    open spec fn damage_ready(&self) -> bool {
        self@.well_formed()
    }

    open spec fn rolled(&self, roll: u32) -> int {
        rolled_damage(self@.damage, roll as int)
    }

    open spec fn damage_type(&self) -> DamageType {
        damage_type_of(self.weapon_type)
    }

    fn calculate_damage(&self, roll: u32) -> (damage: i64) {
        let wide = mul_div(self.damage, roll as i64, SCALE);
        proof {
            let b = self.damage as int;
            let r = roll as int;
            assert(-1_100_000_000_000_000_000 <= trunc_div(b * r, 1_000_000)
                <= 1_100_000_000_000_000_000) by (nonlinear_arith)
                requires
                    -1_000_000_000_000_000_000 <= b <= 1_000_000_000_000_000_000,
                    900_000 <= r <= 1_100_000,
            ;
        }
        wide as i64
    }

    fn get_damage_type(&self) -> (damage_type: DamageType) {
        match self.weapon_type {
            WeaponType::Kinetic => DamageType::Kinetic,
            WeaponType::Energy => DamageType::Energy,
            WeaponType::Missile => DamageType::Explosive,
            WeaponType::Beam => DamageType::Energy,
            WeaponType::Fighter => DamageType::Kinetic,
        }
    }

    fn get_accuracy(&self) -> (accuracy: i64)
        ensures
            accuracy == self.accuracy,
    {
        self.accuracy
    }
}

impl CombatUnit {
    /// Fraction of raw damage of the given type that armor or shields absorb.
    pub fn mitigation_factor(&self, damage_type: DamageType) -> (factor: i64)
        requires
            self@.armor >= 0,
        ensures
            factor == mitigation_factor(self@, damage_type),
            0 <= factor <= SCALE,
    {
        proof {
            lemma_mitigation_factor_bounds(self@, damage_type);
        }
        match damage_type {
            DamageType::Kinetic => {
                let armor = self.armor as i128;
                let wide = (armor * (SCALE as i128)) / (armor + (ARMOR_HALVING as i128));
                wide as i64
            },
            DamageType::Energy => {
                if self.max_shields > 0 && self.shields > 0 {
                    let charge = ((self.shields as i128) * (SCALE as i128)) / (
                    self.max_shields as i128);
                    let capped = if charge > SCALE as i128 {
                        SCALE as i128
                    } else {
                        charge
                    };
                    (capped / 2) as i64
                } else {
                    0
                }
            },
            DamageType::Explosive => 0,
        }
    }

    /// Fraction of damage that the unit's cover absorbs.
    pub fn cover_factor(&self) -> (factor: i64)
        ensures
            factor == cover_factor(self.cover),
    {
        match self.cover {
            CoverType::Exposed => 0,
            CoverType::Light => 250_000,
            CoverType::Heavy => 500_000,
            CoverType::Fortified => 750_000,
        }
    }

    /// Takes one hit of raw `amount`: mitigates it and subtracts the rest
    /// from shields and health. Returns whether the hit destroyed the unit.
    pub fn apply_damage(&mut self, amount: i64, damage_type: DamageType) -> (destroyed: bool)
        requires
            old(self).well_formed(),
        ensures
            final(self)@ == damaged(old(self)@, amount as int, damage_type),
            destroyed == (old(self).is_alive && !final(self).is_alive),
            final(self).well_formed(),
            final(self)@.hp <= old(self)@.hp,
    {
        proof {
            lemma_damaged_never_heals(self@, amount as int, damage_type);
            lemma_mitigated_damage_bounds(self@, amount as int, damage_type);
        }
        if !self.is_alive {
            return false;
        }
        let loss = self.mitigate_damage(amount, damage_type);
        if self.shields > 0 && damage_type == DamageType::Energy {
            self.shields = self.shields - loss;
            if self.shields < 0 {
                self.hp = self.hp + self.shields;
                self.shields = 0;
            }
        } else {
            self.hp = self.hp - loss;
        }
        if self.hp <= 0 {
            self.is_alive = false;
            self.hp = 0;
            true
        } else {
            false
        }
    }
}

impl Armor for CombatUnit {
    open spec fn armor_ready(&self) -> bool {
        self@.armor >= 0
    }

    open spec fn mitigated(&self, damage: i64, damage_type: DamageType) -> int {
        mitigated_damage(self@, damage as int, damage_type)
    }

    fn mitigate_damage(&self, damage: i64, damage_type: DamageType) -> (taken: i64) {
        proof {
            lemma_mitigated_damage_bounds(self@, damage as int, damage_type);
        }
        if damage <= 0 {
            return 0;
        }
        let keep = (SCALE - self.mitigation_factor(damage_type)) as i128;
        let open = (SCALE - self.cover_factor()) as i128;
        proof {
            let d = damage as int;
            assert(0 <= d * keep <= 0x8000_0000_0000_0000 * 1_000_000) by (nonlinear_arith)
                requires
                    0 < d < 0x8000_0000_0000_0000,
                    0 <= keep <= 1_000_000,
            ;
            assert(0 <= d * keep * open <= 0x8000_0000_0000_0000 * 1_000_000 * 1_000_000)
                by (nonlinear_arith)
                requires
                    0 <= d * keep <= 0x8000_0000_0000_0000 * 1_000_000,
                    0 <= open <= 1_000_000,
            ;
        }
        let wide = ((damage as i128) * keep * open) / ((SCALE as i128) * (SCALE as i128));
        wide as i64
    }
}

} // verus!
