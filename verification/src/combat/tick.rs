//! The tick transition, pass by pass: movement, target acquisition, attack
//! resolution, damage application and cooldowns, each as a function on the
//! roster's mathematical view and as the verified code that performs it.
use vstd::prelude::*;
use crate::fixed::{floor_sqrt, is_floor_sqrt, isqrt, lemma_scaled_step_bounded, trunc_div, SCALE};
use crate::combat::{
    BattleState, BattleStateView, CombatUnit, CombatUnitView, WeaponView, roster_positioned,
    roster_well_formed, slot_of, lemma_slot_of_sound,
};
use crate::combat::targeting::{squared_distance, best_target, find_best_target};
use crate::combat::mechanics::{
    DamageSource, DamageType, damage_type_of, damaged, rolled_damage, valid_roll,
    lemma_damaged_never_heals, VARIATION_MAX, VARIATION_MIN, VARIATION_NEUTRAL,
};

verus! {

/// Distance at which an advancing unit stops closing in on its target
/// (20 whole units).
pub const ENGAGEMENT_RANGE: i64 = 20_000_000;

/// Where a unit at `position` stands after closing in on `target`: if the
/// target is farther than the engagement range, the unit advances along the
/// straight line toward it by its speed, but no closer than that range.
pub open spec fn approach(position: (int, int), target: (int, int), speed: int) -> (int, int) {
    let d2 = squared_distance(position, target);
    if d2 > ENGAGEMENT_RANGE * ENGAGEMENT_RANGE {
        let dist = floor_sqrt(d2);
        let step = if speed < dist - ENGAGEMENT_RANGE {
            speed
        } else {
            dist - ENGAGEMENT_RANGE
        };
        if step > 0 {
            (
                position.0 + trunc_div(step * (target.0 - position.0), dist),
                position.1 + trunc_div(step * (target.1 - position.1), dist),
            )
        } else {
            position
        }
    } else {
        position
    }
}

/// A unit after the movement pass, given the roster as it stood before any
/// unit moved. Only a living unit with positive speed and a target that
/// resolves moves.
pub open spec fn moved_unit(unit: CombatUnitView, units: Seq<CombatUnitView>) -> CombatUnitView {
    if unit.is_alive && unit.speed > 0 && unit.target_id.is_some() {
        match slot_of(units, unit.target_id.unwrap()) {
            Some(t) => CombatUnitView {
                position: approach(unit.position, units[t].position, unit.speed),
                ..unit
            },
            None => unit,
        }
    } else {
        unit
    }
}

/// The roster after the movement pass.
pub open spec fn after_movement(units: Seq<CombatUnitView>) -> Seq<CombatUnitView> {
    Seq::new(units.len(), |i: int| moved_unit(units[i], units))
}

/// An advancing unit stays inside the box spanned by where it stood and
/// where its target stands.
pub proof fn lemma_approach_stays_between(position: (int, int), target: (int, int), speed: int)
    ensures
        ({
            let p = approach(position, target, speed);
            &&& (position.0 <= target.0 ==> position.0 <= p.0 <= target.0)
            &&& (position.0 >= target.0 ==> position.0 >= p.0 >= target.0)
            &&& (position.1 <= target.1 ==> position.1 <= p.1 <= target.1)
            &&& (position.1 >= target.1 ==> position.1 >= p.1 >= target.1)
        }),
{
    let d2 = squared_distance(position, target);
    if d2 > ENGAGEMENT_RANGE * ENGAGEMENT_RANGE {
        lemma_floor_sqrt_exists(d2);
        let dist = floor_sqrt(d2);
        let step = if speed < dist - ENGAGEMENT_RANGE {
            speed
        } else {
            dist - ENGAGEMENT_RANGE
        };
        if step > 0 {
            lemma_scaled_step_bounded(step, target.0 - position.0, dist);
            lemma_scaled_step_bounded(step, target.1 - position.1, dist);
        }
    }
}

/// Every non-negative number has a rounded-down square root.
pub proof fn lemma_floor_sqrt_exists(n: int)
    requires
        n >= 0,
    ensures
        is_floor_sqrt(n, floor_sqrt(n)),
{
    lemma_sqrt_search(n, 0);
}

/// From a lower bound whose square does not exceed `n`, a rounded-down
/// square root of `n` can be reached.
proof fn lemma_sqrt_search(n: int, r: int)
    requires
        0 <= r,
        r * r <= n,
    ensures
        exists|s: int| is_floor_sqrt(n, s),
    decreases n - r,
{
    if n < (r + 1) * (r + 1) {
        assert(is_floor_sqrt(n, r));
    } else {
        assert(r + 1 <= n) by (nonlinear_arith)
            requires
                0 <= r,
                (r + 1) * (r + 1) <= n,
        ;
        lemma_sqrt_search(n, r + 1);
    }
}

/// The movement pass keeps every unit inside the representable battlefield
/// and changes nothing but positions.
pub proof fn lemma_movement_keeps_invariant(units: Seq<CombatUnitView>)
    requires
        roster_well_formed(units),
    ensures
        roster_well_formed(after_movement(units)),
{
    let moved = after_movement(units);
    assert forall|i: int| 0 <= i < moved.len() implies (#[trigger] moved[i]).well_formed() by {
        let unit = units[i];
        assert(unit.well_formed());
        if unit.is_alive && unit.speed > 0 && unit.target_id.is_some() {
            lemma_slot_of_sound(units, unit.target_id.unwrap());
            match slot_of(units, unit.target_id.unwrap()) {
                Some(t) => {
                    assert(units[t].well_formed());
                    lemma_approach_stays_between(unit.position, units[t].position, unit.speed);
                },
                None => {},
            }
        }
    }
}

impl CombatUnit {
    /// Where this unit stands after closing in on `target`.
    pub fn approach(&self, target: &CombatUnit) -> (position: (i64, i64))
        requires
            self@.positioned(),
            target@.positioned(),
        ensures
            (position.0 as int, position.1 as int) == approach(
                self@.position,
                target@.position,
                self@.speed,
            ),
    {
        let d2 = self.squared_distance_to(target);
        let reach: i128 = (ENGAGEMENT_RANGE as i128) * (ENGAGEMENT_RANGE as i128);
        if d2 > reach {
            let dist: i128 = isqrt(d2 as u128) as i128;
            proof {
                assert(dist >= ENGAGEMENT_RANGE) by (nonlinear_arith)
                    requires
                        0 <= dist,
                        (dist + 1) * (dist + 1) > d2,
                        d2 > 20_000_000 * 20_000_000,
                        ENGAGEMENT_RANGE == 20_000_000,
                ;
                assert(dist <= 3_000_000_000_000_000_000) by (nonlinear_arith)
                    requires
                        0 <= dist,
                        dist * dist <= d2,
                        d2 <= 8_000_000_000_000_000_000_000_000_000_000_000_000,
                ;
            }
            let room: i128 = dist - (ENGAGEMENT_RANGE as i128);
            let step: i128 = if (self.speed as i128) < room {
                self.speed as i128
            } else {
                room
            };
            if step > 0 {
                let dx: i128 = (target.position.0 as i128) - (self.position.0 as i128);
                let dy: i128 = (target.position.1 as i128) - (self.position.1 as i128);
                proof {
                    lemma_scaled_step_bounded(step as int, dx as int, dist as int);
                    lemma_scaled_step_bounded(step as int, dy as int, dist as int);
                    assert(-6_000_000_000_000_000_000_000_000_000_000_000_000 <= step * dx
                        <= 6_000_000_000_000_000_000_000_000_000_000_000_000) by (nonlinear_arith)
                        requires
                            0 < step <= 3_000_000_000_000_000_000,
                            -2_000_000_000_000_000_000 <= dx <= 2_000_000_000_000_000_000,
                    ;
                    assert(-6_000_000_000_000_000_000_000_000_000_000_000_000 <= step * dy
                        <= 6_000_000_000_000_000_000_000_000_000_000_000_000) by (nonlinear_arith)
                        requires
                            0 < step <= 3_000_000_000_000_000_000,
                            -2_000_000_000_000_000_000 <= dy <= 2_000_000_000_000_000_000,
                    ;
                }
                let nx: i128 = (self.position.0 as i128) + (step * dx) / dist;
                let ny: i128 = (self.position.1 as i128) + (step * dy) / dist;
                (nx as i64, ny as i64)
            } else {
                (self.position.0, self.position.1)
            }
        } else {
            (self.position.0, self.position.1)
        }
    }
}

impl BattleState {
    /// Where the unit in roster position `i` stands after the movement pass.
    fn moved_position(&self, i: usize) -> (position: (i64, i64))
        requires
            i < self.units@.len(),
            roster_positioned(self@.units),
        ensures
            (position.0 as int, position.1 as int) == moved_unit(
                self@.units[i as int],
                self@.units,
            ).position,
    {
        let unit = &self.units[i];
        assert(unit@ == self@.units[i as int]);
        if unit.is_alive && unit.speed > 0 {
            if let Some(tid) = unit.target_id {
                if let Some(t) = self.find_slot(tid) {
                    assert(self.units@[t as int]@ == self@.units[t as int]);
                    return unit.approach(&self.units[t]);
                }
            }
        }
        (unit.position.0, unit.position.1)
    }

    /// The movement pass: every living unit with positive speed and a target
    /// closes in on where that target stood before any unit moved.
    pub fn move_units(&mut self)
        requires
            old(self).well_formed(),
        ensures
            final(self)@ == (BattleStateView {
                units: after_movement(old(self)@.units),
                ..old(self)@
            }),
            final(self).well_formed(),
    {
        let ghost before = self@.units;
        let mut positions: Vec<(i64, i64)> = Vec::new();
        let mut i: usize = 0;
        while i < self.units.len()
            invariant
                i <= self.units@.len(),
                self@.units == before,
                roster_well_formed(before),
                positions@.len() == i,
                forall|j: int|
                    0 <= j < i ==> ((#[trigger] positions@[j]).0 as int, positions@[j].1 as int)
                        == moved_unit(before[j], before).position,
            decreases self.units@.len() - i,
        {
            let p = self.moved_position(i);
            positions.push(p);
            i += 1;
        }
        let n = self.units.len();
        let mut i: usize = 0;
        while i < n
            invariant
                i <= n,
                n == before.len(),
                self.units@.len() == n,
                positions@.len() == n,
                self@ == (BattleStateView { units: self@.units, ..old(self)@ }),
                forall|j: int|
                    0 <= j < n ==> ((#[trigger] positions@[j]).0 as int, positions@[j].1 as int)
                        == moved_unit(before[j], before).position,
                forall|j: int|
                    0 <= j < i ==> (#[trigger] self.units@[j])@ == moved_unit(before[j], before),
                forall|j: int| i <= j < n ==> (#[trigger] self.units@[j])@ == before[j],
            decreases n - i,
        {
            let ghost prev = self.units@;
            let p = positions[i];
            self.units[i].position = p;
            proof {
                assert(forall|j: int| 0 <= j < n && j != i ==> self.units@[j] == prev[j]);
                assert(self.units@[i as int]@ == (CombatUnitView {
                    position: (p.0 as int, p.1 as int),
                    ..prev[i as int]@
                }));
                assert(((#[trigger] positions@[i as int]).0 as int, positions@[i as int].1 as int)
                    == moved_unit(before[i as int], before).position);
            }
            i += 1;
        }
        proof {
            assert(self@.units =~= after_movement(before));
            lemma_movement_keeps_invariant(before);
        }
    }
}

/// Whether a unit must look for a target: it has none, or the one it has
/// no longer resolves, or resolves to a dead unit.
pub open spec fn needs_target(unit: CombatUnitView, units: Seq<CombatUnitView>) -> bool {
    match unit.target_id {
        Some(t) => match slot_of(units, t) {
            Some(s) => !units[s].is_alive,
            None => true,
        },
        None => true,
    }
}

/// A unit after the targeting pass, given the roster as it stood before any
/// target was assigned. A living unit in need of a target takes the nearest
/// valid enemy; a unit that finds none keeps what it had.
pub open spec fn retargeted_unit(unit: CombatUnitView, units: Seq<CombatUnitView>) -> CombatUnitView {
    if unit.is_alive && needs_target(unit, units) {
        match best_target(unit, units) {
            Some(t) => CombatUnitView { target_id: Some(t), ..unit },
            None => unit,
        }
    } else {
        unit
    }
}

/// The roster after the targeting pass.
pub open spec fn after_targeting(units: Seq<CombatUnitView>) -> Seq<CombatUnitView> {
    Seq::new(units.len(), |i: int| retargeted_unit(units[i], units))
}

/// A weapon after the cooldown pass: a positive remaining cooldown drops by
/// one tick.
pub open spec fn cooled_weapon(weapon: WeaponView) -> WeaponView {
    if weapon.current_cooldown > 0 {
        WeaponView { current_cooldown: weapon.current_cooldown - SCALE, ..weapon }
    } else {
        weapon
    }
}

/// A unit after the cooldown pass.
pub open spec fn cooled_unit(unit: CombatUnitView) -> CombatUnitView {
    CombatUnitView {
        weapons: Seq::new(unit.weapons.len(), |k: int| cooled_weapon(unit.weapons[k])),
        ..unit
    }
}

/// The roster after the cooldown pass.
pub open spec fn after_cooldown(units: Seq<CombatUnitView>) -> Seq<CombatUnitView> {
    Seq::new(units.len(), |i: int| cooled_unit(units[i]))
}

/// More than one faction still has a living unit.
pub open spec fn contested(units: Seq<CombatUnitView>) -> bool {
    exists|i: int, j: int|
        0 <= i < units.len() && 0 <= j < units.len() && (#[trigger] units[i]).is_alive && (
        #[trigger] units[j]).is_alive && units[i].faction_idx != units[j].faction_idx
}

/// The targeting pass keeps the unit invariant.
pub proof fn lemma_targeting_keeps_invariant(units: Seq<CombatUnitView>)
    requires
        roster_well_formed(units),
    ensures
        roster_well_formed(after_targeting(units)),
{
    let aimed = after_targeting(units);
    assert forall|i: int| 0 <= i < aimed.len() implies (#[trigger] aimed[i]).well_formed() by {
        assert(units[i].well_formed());
    }
}

/// The cooldown pass keeps the unit invariant.
pub proof fn lemma_cooldown_keeps_invariant(units: Seq<CombatUnitView>)
    requires
        roster_well_formed(units),
    ensures
        roster_well_formed(after_cooldown(units)),
{
    let cooled = after_cooldown(units);
    assert forall|i: int| 0 <= i < cooled.len() implies (#[trigger] cooled[i]).well_formed() by {
        let unit = units[i];
        assert(unit.well_formed());
        assert forall|k: int| 0 <= k < cooled[i].weapons.len() implies (
        #[trigger] cooled[i].weapons[k]).well_formed() by {
            assert(unit.weapons[k].well_formed());
        }
    }
}

impl BattleState {
    /// Whether the unit in roster position `i` must look for a target.
    fn unit_needs_target(&self, i: usize) -> (needed: bool)
        requires
            i < self.units@.len(),
        ensures
            needed == needs_target(self@.units[i as int], self@.units),
    {
        assert(self.units@[i as int]@ == self@.units[i as int]);
        match self.units[i].target_id {
            Some(tid) => match self.find_slot(tid) {
                Some(s) => {
                    assert(self.units@[s as int]@ == self@.units[s as int]);
                    !self.units[s].is_alive
                },
                None => true,
            },
            None => true,
        }
    }

    /// The targeting pass: every living unit whose target is missing or dead
    /// acquires the nearest valid enemy. Choices are made against the roster
    /// as it stood when the pass began and applied together afterwards.
    pub fn acquire_targets(&mut self)
        requires
            old(self).well_formed(),
        ensures
            final(self)@ == (BattleStateView {
                units: after_targeting(old(self)@.units),
                ..old(self)@
            }),
            final(self).well_formed(),
    {
        let ghost before = self@.units;
        let mut choices: Vec<Option<u32>> = Vec::new();
        let mut i: usize = 0;
        while i < self.units.len()
            invariant
                i <= self.units@.len(),
                self@.units == before,
                roster_well_formed(before),
                choices@.len() == i,
                forall|j: int|
                    0 <= j < i ==> (#[trigger] choices@[j]) == (if before[j].is_alive
                        && needs_target(before[j], before) {
                        best_target(before[j], before)
                    } else {
                        None
                    }),
            decreases self.units@.len() - i,
        {
            assert(self.units@[i as int]@ == before[i as int]);
            assert(before[i as int].well_formed());
            let choice = if self.units[i].is_alive && self.unit_needs_target(i) {
                find_best_target(&self.units[i], self)
            } else {
                None
            };
            choices.push(choice);
            i += 1;
        }
        let n = self.units.len();
        let mut i: usize = 0;
        while i < n
            invariant
                i <= n,
                n == before.len(),
                self.units@.len() == n,
                choices@.len() == n,
                self@ == (BattleStateView { units: self@.units, ..old(self)@ }),
                forall|j: int|
                    0 <= j < n ==> (#[trigger] choices@[j]) == (if before[j].is_alive
                        && needs_target(before[j], before) {
                        best_target(before[j], before)
                    } else {
                        None
                    }),
                forall|j: int|
                    0 <= j < i ==> (#[trigger] self.units@[j])@ == retargeted_unit(
                        before[j],
                        before,
                    ),
                forall|j: int| i <= j < n ==> (#[trigger] self.units@[j])@ == before[j],
            decreases n - i,
        {
            let ghost prev = self.units@;
            let choice = choices[i];
            if let Some(tid) = choice {
                self.units[i].target_id = Some(tid);
                proof {
                    assert(self.units@[i as int]@ == (CombatUnitView {
                        target_id: Some(tid),
                        ..prev[i as int]@
                    }));
                }
            }
            proof {
                assert(forall|j: int| 0 <= j < n && j != i ==> self.units@[j] == prev[j]);
                assert((#[trigger] choices@[i as int]) == choice);
            }
            i += 1;
        }
        proof {
            assert(self@.units =~= after_targeting(before));
            lemma_targeting_keeps_invariant(before);
        }
    }

    /// The cooldown pass: every weapon with a positive remaining cooldown
    /// has it reduced by one tick.
    pub fn tick_cooldowns(&mut self)
        ensures
            final(self)@ == (BattleStateView {
                units: after_cooldown(old(self)@.units),
                ..old(self)@
            }),
            old(self).well_formed() ==> final(self).well_formed(),
    {
        let ghost before = self@.units;
        let n = self.units.len();
        let mut i: usize = 0;
        while i < n
            invariant
                i <= n,
                n == before.len(),
                self.units@.len() == n,
                self@ == (BattleStateView { units: self@.units, ..old(self)@ }),
                forall|j: int| 0 <= j < i ==> (#[trigger] self.units@[j])@ == cooled_unit(before[j]),
                forall|j: int| i <= j < n ==> (#[trigger] self.units@[j])@ == before[j],
            decreases n - i,
        {
            let ghost outer = self.units@;
            let m = self.units[i].weapons.len();
            let mut k: usize = 0;
            while k < m
                invariant
                    i < n,
                    k <= m,
                    self.units@.len() == n,
                    outer.len() == n,
                    m == outer[i as int].weapons@.len(),
                    self.units@[i as int].weapons@.len() == m,
                    self@ == (BattleStateView { units: self@.units, ..old(self)@ }),
                    forall|j: int| 0 <= j < n && j != i ==> self.units@[j] == outer[j],
                    self.units@[i as int]@ == (CombatUnitView {
                        weapons: self.units@[i as int]@.weapons,
                        ..outer[i as int]@
                    }),
                    forall|w: int|
                        0 <= w < k ==> (#[trigger] self.units@[i as int].weapons@[w])@
                            == cooled_weapon(outer[i as int].weapons@[w]@),
                    forall|w: int|
                        k <= w < m ==> (#[trigger] self.units@[i as int].weapons@[w])@
                            == outer[i as int].weapons@[w]@,
                decreases m - k,
            {
                let ghost inner = self.units@;
                if self.units[i].weapons[k].current_cooldown > 0 {
                    let cooled = self.units[i].weapons[k].current_cooldown - SCALE;
                    self.units[i].weapons[k].current_cooldown = cooled;
                }
                proof {
                    assert(forall|j: int| 0 <= j < n && j != i ==> self.units@[j] == inner[j]);
                    assert(forall|w: int|
                        0 <= w < m && w != k ==> self.units@[i as int].weapons@[w]
                            == inner[i as int].weapons@[w]);
                }
                k += 1;
            }
            proof {
                assert(outer[i as int]@ == before[i as int]);
                assert(self.units@[i as int]@.weapons =~= cooled_unit(before[i as int]).weapons);
                assert(self.units@[i as int]@ == cooled_unit(before[i as int]));
                assert forall|j: int| 0 <= j < i implies (#[trigger] self.units@[j])@ == cooled_unit(
                    before[j],
                ) by {
                    assert(self.units@[j] == outer[j]);
                }
                assert forall|j: int| i < j < n implies (#[trigger] self.units@[j])@ == before[j] by {
                    assert(self.units@[j] == outer[j]);
                }
            }
            i += 1;
        }
        proof {
            assert(self@.units =~= after_cooldown(before));
            if old(self).well_formed() {
                lemma_cooldown_keeps_invariant(before);
            }
        }
    }

    /// Whether more than one faction still has a living unit.
    pub fn is_contested(&self) -> (ongoing: bool)
        ensures
            ongoing == contested(self@.units),
    {
        let ghost units = self@.units;
        let mut first: Option<u8> = None;
        let ghost mut first_slot: int = 0;
        let mut i: usize = 0;
        while i < self.units.len()
            invariant
                i <= self.units@.len(),
                units == self@.units,
                match first {
                    Some(f) => 0 <= first_slot < i && units[first_slot].is_alive
                        && units[first_slot].faction_idx == f && forall|j: int|
                        0 <= j < i && (#[trigger] units[j]).is_alive ==> units[j].faction_idx == f,
                    None => forall|j: int| 0 <= j < i ==> !(#[trigger] units[j]).is_alive,
                },
            decreases self.units@.len() - i,
        {
            let unit = &self.units[i];
            assert(unit@ == units[i as int]);
            if unit.is_alive {
                match first {
                    Some(f) => {
                        if unit.faction_idx != f {
                            assert(units[first_slot].is_alive && units[i as int].is_alive);
                            return true;
                        }
                    },
                    None => {
                        first = Some(unit.faction_idx);
                        proof {
                            first_slot = i as int;
                        }
                    },
                }
            }
            i += 1;
        }
        false
    }
}

/// A queued hit: who is struck, by how much raw damage, of what type.
#[derive(Debug, Clone, Copy)]
pub struct DamageEvent {
    pub target_id: u32,
    pub amount: i64,
    pub damage_type: DamageType,
}

/// Mathematical view of a [`DamageEvent`].
pub struct DamageEventView {
    pub target_id: u32,
    pub amount: int,
    pub damage_type: DamageType,
}

impl View for DamageEvent {
    type V = DamageEventView;

    open spec fn view(&self) -> DamageEventView {
        DamageEventView {
            target_id: self.target_id,
            amount: self.amount as int,
            damage_type: self.damage_type,
        }
    }
}

/// Views of a sequence of damage events, position by position.
pub open spec fn event_views(events: Seq<DamageEvent>) -> Seq<DamageEventView> {
    Seq::new(events.len(), |m: int| events[m]@)
}

/// A list of (unit position, weapon position) pairs as mathematical pairs.
pub open spec fn shot_views(shots: Seq<(usize, usize)>) -> Seq<(int, int)> {
    Seq::new(shots.len(), |m: int| (shots[m].0 as int, shots[m].1 as int))
}

/// The roster position of the target a unit engages in the attack pass: a
/// living unit engages whatever its target identifier resolves to.
pub open spec fn engaged_slot(units: Seq<CombatUnitView>, i: int) -> Option<int> {
    if units[i].is_alive && units[i].target_id.is_some() {
        slot_of(units, units[i].target_id.unwrap())
    } else {
        None
    }
}

/// A weapon's range covers a target at squared distance `d2`.
pub open spec fn in_range(weapon: WeaponView, d2: int) -> bool {
    weapon.range >= 0 && d2 <= weapon.range * weapon.range
}

/// Weapon `k` of unit `i` fires this tick: the unit engages a target, the
/// weapon's range covers the current distance to it, and the weapon's
/// cooldown has run out.
pub open spec fn fires(units: Seq<CombatUnitView>, i: int, k: int) -> bool {
    match engaged_slot(units, i) {
        Some(t) => in_range(
            units[i].weapons[k],
            squared_distance(units[i].position, units[t].position),
        ) && units[i].weapons[k].current_cooldown <= 0,
        None => false,
    }
}

/// A (unit, weapon) pair that names a weapon of the roster that fires.
pub open spec fn valid_shot(units: Seq<CombatUnitView>, shot: (int, int)) -> bool {
    &&& 0 <= shot.0 < units.len()
    &&& 0 <= shot.1 < units[shot.0].weapons.len()
    &&& fires(units, shot.0, shot.1)
}

/// The shots of unit `i` among its first `k` weapons, in weapon order.
pub open spec fn unit_shots(units: Seq<CombatUnitView>, i: int, k: int) -> Seq<(int, int)>
    decreases k,
{
    if k <= 0 {
        Seq::empty()
    } else if fires(units, i, k - 1) {
        unit_shots(units, i, k - 1).push((i, k - 1))
    } else {
        unit_shots(units, i, k - 1)
    }
}

/// The shots of the first `n` units, in roster order and then weapon order.
pub open spec fn shots_before(units: Seq<CombatUnitView>, n: int) -> Seq<(int, int)>
    decreases n,
{
    if n <= 0 {
        Seq::empty()
    } else {
        shots_before(units, n - 1) + unit_shots(units, n - 1, units[n - 1].weapons.len() as int)
    }
}

/// Every shot of the tick, in the order in which the hits are queued.
pub open spec fn shots(units: Seq<CombatUnitView>) -> Seq<(int, int)> {
    shots_before(units, units.len() as int)
}

/// The variation factor of the `m`-th shot: the `m`-th supplied roll, or a
/// neutral factor once the supplied rolls run out.
pub open spec fn roll_at(rolls: Seq<u32>, m: int) -> u32 {
    if 0 <= m < rolls.len() {
        rolls[m]
    } else {
        VARIATION_NEUTRAL
    }
}

/// Every supplied roll lies within ten percent of neutral.
pub open spec fn valid_rolls(rolls: Seq<u32>) -> bool {
    forall|m: int| 0 <= m < rolls.len() ==> valid_roll(#[trigger] rolls[m])
}

/// The hit that a shot queues under a given variation factor.
pub open spec fn event_of(units: Seq<CombatUnitView>, shot: (int, int), roll: u32) -> DamageEventView {
    DamageEventView {
        target_id: units[shot.0].target_id.unwrap(),
        amount: rolled_damage(units[shot.0].weapons[shot.1].damage, roll as int),
        damage_type: damage_type_of(units[shot.0].weapons[shot.1].weapon_type),
    }
}

/// The hits queued by the attack pass, in queue order.
pub open spec fn events_of(units: Seq<CombatUnitView>, rolls: Seq<u32>) -> Seq<DamageEventView> {
    Seq::new(shots(units).len(), |m: int| event_of(units, shots(units)[m], roll_at(rolls, m)))
}

/// A weapon after the attack pass's bookkeeping: one that fired starts its
/// full cooldown again.
pub open spec fn fired_weapon(units: Seq<CombatUnitView>, i: int, k: int) -> WeaponView {
    if fires(units, i, k) {
        WeaponView { current_cooldown: units[i].weapons[k].cooldown, ..units[i].weapons[k] }
    } else {
        units[i].weapons[k]
    }
}

/// A unit after the attack pass's bookkeeping.
pub open spec fn fired_unit(units: Seq<CombatUnitView>, i: int) -> CombatUnitView {
    CombatUnitView {
        weapons: Seq::new(units[i].weapons.len(), |k: int| fired_weapon(units, i, k)),
        ..units[i]
    }
}

/// The roster after the attack pass's bookkeeping.
pub open spec fn after_firing(units: Seq<CombatUnitView>) -> Seq<CombatUnitView> {
    Seq::new(units.len(), |i: int| fired_unit(units, i))
}

/// The roster after one queued hit: the defender is resolved by identifier
/// and damaged; a hit whose defender does not resolve has no effect.
pub open spec fn apply_event(units: Seq<CombatUnitView>, event: DamageEventView) -> Seq<
    CombatUnitView,
> {
    match slot_of(units, event.target_id) {
        Some(s) => units.update(s, damaged(units[s], event.amount, event.damage_type)),
        None => units,
    }
}

/// Whether a queued hit destroys its defender.
pub open spec fn event_destroys(units: Seq<CombatUnitView>, event: DamageEventView) -> bool {
    match slot_of(units, event.target_id) {
        Some(s) => units[s].is_alive && !damaged(
            units[s],
            event.amount,
            event.damage_type,
        ).is_alive,
        None => false,
    }
}

/// The roster after a queue of hits, applied cumulatively in queue order.
pub open spec fn apply_events(units: Seq<CombatUnitView>, events: Seq<DamageEventView>) -> Seq<
    CombatUnitView,
>
    decreases events.len(),
{
    if events.len() == 0 {
        units
    } else {
        apply_event(apply_events(units, events.drop_last()), events.last())
    }
}

/// The identifiers of the units that a queue of hits destroys, in the order
/// in which they die.
pub open spec fn destroyed_by(units: Seq<CombatUnitView>, events: Seq<DamageEventView>) -> Seq<u32>
    decreases events.len(),
{
    if events.len() == 0 {
        Seq::empty()
    } else if event_destroys(apply_events(units, events.drop_last()), events.last()) {
        destroyed_by(units, events.drop_last()).push(events.last().target_id)
    } else {
        destroyed_by(units, events.drop_last())
    }
}

/// Every shot of a unit names one of its weapons that fires.
pub proof fn lemma_unit_shots_sound(units: Seq<CombatUnitView>, i: int, k: int, m: int)
    requires
        0 <= i < units.len(),
        0 <= k <= units[i].weapons.len(),
        0 <= m < unit_shots(units, i, k).len(),
    ensures
        valid_shot(units, unit_shots(units, i, k)[m]),
        unit_shots(units, i, k)[m].0 == i,
        unit_shots(units, i, k)[m].1 < k,
    decreases k,
{
    if k > 0 {
        if fires(units, i, k - 1) && m == unit_shots(units, i, k - 1).len() {
        } else {
            lemma_unit_shots_sound(units, i, k - 1, m);
        }
    }
}

/// Every shot of the tick names a weapon of the roster that fires.
pub proof fn lemma_shots_sound(units: Seq<CombatUnitView>, n: int, m: int)
    requires
        0 <= n <= units.len(),
        0 <= m < shots_before(units, n).len(),
    ensures
        valid_shot(units, shots_before(units, n)[m]),
        shots_before(units, n)[m].0 < n,
    decreases n,
{
    if n > 0 {
        let earlier = shots_before(units, n - 1);
        if m < earlier.len() {
            lemma_shots_sound(units, n - 1, m);
        } else {
            lemma_unit_shots_sound(
                units,
                n - 1,
                units[n - 1].weapons.len() as int,
                m - earlier.len(),
            );
        }
    }
}

/// Every weapon of a unit that fires is among the unit's shots.
pub proof fn lemma_unit_shots_complete(units: Seq<CombatUnitView>, i: int, k: int, w: int)
    requires
        0 <= w < k,
        fires(units, i, w),
    ensures
        unit_shots(units, i, k).contains((i, w)),
    decreases k,
{
    let all = unit_shots(units, i, k);
    let prev = unit_shots(units, i, k - 1);
    if w == k - 1 {
        assert(all[prev.len() as int] == (i, w));
    } else {
        lemma_unit_shots_complete(units, i, k - 1, w);
        let m = choose|m: int| 0 <= m < prev.len() && prev[m] == (i, w);
        assert(all[m] == (i, w));
    }
}

/// Every weapon of the roster that fires is among the shots of the tick.
pub proof fn lemma_shots_complete(units: Seq<CombatUnitView>, n: int, i: int, w: int)
    requires
        0 <= i < n <= units.len(),
        0 <= w < units[i].weapons.len(),
        fires(units, i, w),
    ensures
        shots_before(units, n).contains((i, w)),
    decreases n,
{
    let all = shots_before(units, n);
    let earlier = shots_before(units, n - 1);
    let own = unit_shots(units, n - 1, units[n - 1].weapons.len() as int);
    if i == n - 1 {
        lemma_unit_shots_complete(units, i, units[i].weapons.len() as int, w);
        let m = choose|m: int| 0 <= m < own.len() && own[m] == (i, w);
        assert(all[earlier.len() + m] == (i, w));
    } else {
        lemma_shots_complete(units, n - 1, i, w);
        let m = choose|m: int| 0 <= m < earlier.len() && earlier[m] == (i, w);
        assert(all[m] == (i, w));
    }
}

/// The attack pass's bookkeeping keeps the unit invariant.
pub proof fn lemma_firing_keeps_invariant(units: Seq<CombatUnitView>)
    requires
        roster_well_formed(units),
    ensures
        roster_well_formed(after_firing(units)),
{
    let fired = after_firing(units);
    assert forall|i: int| 0 <= i < fired.len() implies (#[trigger] fired[i]).well_formed() by {
        assert(units[i].well_formed());
        assert forall|k: int| 0 <= k < fired[i].weapons.len() implies (
        #[trigger] fired[i].weapons[k]).well_formed() by {
            assert(units[i].weapons[k].well_formed());
        }
    }
}

/// One queued hit keeps the unit invariant, the roster's length and every
/// identifier and faction, raises nobody's health and revives nobody.
pub proof fn lemma_apply_event_keeps_invariant(units: Seq<CombatUnitView>, event: DamageEventView)
    requires
        roster_well_formed(units),
    ensures
        roster_well_formed(apply_event(units, event)),
        apply_event(units, event).len() == units.len(),
        forall|i: int|
            0 <= i < units.len() ==> {
                let after = #[trigger] apply_event(units, event)[i];
                &&& after.hp <= units[i].hp
                &&& after.id == units[i].id
                &&& after.faction_idx == units[i].faction_idx
                &&& after.is_alive ==> units[i].is_alive
            },
{
    lemma_slot_of_sound(units, event.target_id);
    match slot_of(units, event.target_id) {
        Some(s) => {
            assert(units[s].well_formed());
            lemma_damaged_never_heals(units[s], event.amount, event.damage_type);
            let next = apply_event(units, event);
            assert forall|i: int| 0 <= i < next.len() implies (#[trigger] next[i]).well_formed() by {
                if i != s {
                    assert(units[i].well_formed());
                }
            }
        },
        None => {},
    }
}

/// A queue of hits keeps the unit invariant, the roster's length and every
/// identifier and faction, raises nobody's health and revives nobody.
pub proof fn lemma_apply_events_keeps_invariant(
    units: Seq<CombatUnitView>,
    events: Seq<DamageEventView>,
)
    requires
        roster_well_formed(units),
    ensures
        roster_well_formed(apply_events(units, events)),
        apply_events(units, events).len() == units.len(),
        forall|i: int|
            0 <= i < units.len() ==> {
                let after = #[trigger] apply_events(units, events)[i];
                &&& after.hp <= units[i].hp
                &&& after.id == units[i].id
                &&& after.faction_idx == units[i].faction_idx
                &&& after.is_alive ==> units[i].is_alive
            },
    decreases events.len(),
{
    if events.len() > 0 {
        lemma_apply_events_keeps_invariant(units, events.drop_last());
        lemma_apply_event_keeps_invariant(apply_events(units, events.drop_last()), events.last());
    }
}

/// A unit that engages nobody fires nothing.
pub proof fn lemma_unit_shots_idle(units: Seq<CombatUnitView>, i: int, k: int)
    requires
        engaged_slot(units, i).is_none(),
    ensures
        unit_shots(units, i, k) == Seq::<(int, int)>::empty(),
    decreases k,
{
    if k > 0 {
        lemma_unit_shots_idle(units, i, k - 1);
    }
}

/// One of the first `m` shots is the given (unit, weapon) pair.
pub open spec fn shot_among(shots: Seq<(int, int)>, m: int, shot: (int, int)) -> bool {
    exists|j: int| 0 <= j < m && #[trigger] shots[j] == shot
}

/// A weapon whose cooldown restarts if `fired` holds.
pub open spec fn restarted(weapon: WeaponView, fired: bool) -> WeaponView {
    if fired {
        WeaponView { current_cooldown: weapon.cooldown, ..weapon }
    } else {
        weapon
    }
}

impl BattleState {
    /// The weapons that fire this tick as (unit position, weapon position)
    /// pairs, in the order in which their hits are queued: roster order,
    /// then weapon order.
    pub fn pending_shots(&self) -> (fired: Vec<(usize, usize)>)
        requires
            roster_positioned(self@.units),
        ensures
            shot_views(fired@) == shots(self@.units),
    {
        let ghost units = self@.units;
        let mut fired: Vec<(usize, usize)> = Vec::new();
        let mut i: usize = 0;
        assert(shot_views(fired@) =~= shots_before(units, 0));
        while i < self.units.len()
            invariant
                i <= self.units@.len(),
                units == self@.units,
                roster_positioned(units),
                shot_views(fired@) == shots_before(units, i as int),
            decreases self.units@.len() - i,
        {
            let attacker = &self.units[i];
            assert(attacker@ == units[i as int]);
            let count = attacker.weapons.len();
            let mut target: Option<usize> = None;
            if attacker.is_alive {
                if let Some(tid) = attacker.target_id {
                    target = self.find_slot(tid);
                }
            }
            assert(match target {
                Some(t) => engaged_slot(units, i as int) == Some(t as int),
                None => engaged_slot(units, i as int).is_none(),
            });
            match target {
                Some(t) => {
                    assert(self.units@[t as int]@ == units[t as int]);
                    let d2 = attacker.squared_distance_to(&self.units[t]);
                    let mut k: usize = 0;
                    assert(shot_views(fired@) =~= shots_before(units, i as int) + unit_shots(
                        units,
                        i as int,
                        0,
                    ));
                    while k < count
                        invariant
                            i < self.units@.len(),
                            k <= count,
                            units == self@.units,
                            *attacker == self.units@[i as int],
                            attacker@ == units[i as int],
                            count == attacker.weapons@.len(),
                            engaged_slot(units, i as int) == Some(t as int),
                            d2 == squared_distance(units[i as int].position, units[t as int].position),
                            shot_views(fired@) == shots_before(units, i as int) + unit_shots(
                                units,
                                i as int,
                                k as int,
                            ),
                        decreases count - k,
                    {
                        let weapon = &attacker.weapons[k];
                        assert(weapon@ == units[i as int].weapons[k as int]);
                        let ghost prev = fired@;
                        if weapon.covers(d2) && weapon.current_cooldown <= 0 {
                            fired.push((i, k));
                            assert(shot_views(fired@) =~= shot_views(prev).push((i as int, k as int)));
                        }
                        assert(shot_views(fired@) =~= shots_before(units, i as int) + unit_shots(
                            units,
                            i as int,
                            k + 1,
                        ));
                        k += 1;
                    }
                },
                None => {
                    proof {
                        lemma_unit_shots_idle(units, i as int, count as int);
                        assert(shot_views(fired@) =~= shots_before(units, i as int) + unit_shots(
                            units,
                            i as int,
                            count as int,
                        ));
                    }
                },
            }
            i += 1;
        }
        fired
    }

    /// Queues the hit of every shot: the `m`-th shot deals its weapon's base
    /// damage scaled by the `m`-th roll, or unscaled once the rolls run out.
    pub fn roll_events(&self, fired: &Vec<(usize, usize)>, rolls: &Vec<u32>) -> (events: Vec<
        DamageEvent,
    >)
        requires
            self.well_formed(),
            shot_views(fired@) == shots(self@.units),
            valid_rolls(rolls@),
        ensures
            event_views(events@) == events_of(self@.units, rolls@),
    {
        let ghost units = self@.units;
        let mut events: Vec<DamageEvent> = Vec::new();
        let mut m: usize = 0;
        while m < fired.len()
            invariant
                m <= fired@.len(),
                units == self@.units,
                roster_well_formed(units),
                shot_views(fired@) == shots(units),
                valid_rolls(rolls@),
                events@.len() == m,
                forall|j: int|
                    0 <= j < m ==> (#[trigger] events@[j])@ == event_of(
                        units,
                        shots(units)[j],
                        roll_at(rolls@, j),
                    ),
            decreases fired@.len() - m,
        {
            let (i, k) = fired[m];
            proof {
                assert(shot_views(fired@)[m as int] == (i as int, k as int));
                lemma_shots_sound(units, units.len() as int, m as int);
                assert(units[i as int].well_formed());
                assert(units[i as int].weapons[k as int].well_formed());
            }
            let attacker = &self.units[i];
            assert(attacker@ == units[i as int]);
            let weapon = &attacker.weapons[k];
            assert(weapon@ == units[i as int].weapons[k as int]);
            let roll = if m < rolls.len() {
                rolls[m]
            } else {
                VARIATION_NEUTRAL
            };
            let tid = match attacker.target_id {
                Some(tid) => tid,
                None => 0,
            };
            let event = DamageEvent {
                target_id: tid,
                amount: weapon.calculate_damage(roll),
                damage_type: weapon.get_damage_type(),
            };
            events.push(event);
            m += 1;
        }
        assert(event_views(events@) =~= events_of(units, rolls@));
        events
    }

    /// The attack pass's bookkeeping: every weapon that fired starts its
    /// full cooldown again.
    pub fn reset_fired(&mut self, fired: &Vec<(usize, usize)>)
        requires
            shot_views(fired@) == shots(old(self)@.units),
        ensures
            final(self)@ == (BattleStateView {
                units: after_firing(old(self)@.units),
                ..old(self)@
            }),
            old(self).well_formed() ==> final(self).well_formed(),
    {
        let ghost before = self@.units;
        let ghost all = shots(before);
        let n = self.units.len();
        let mut m: usize = 0;
        while m < fired.len()
            invariant
                m <= fired@.len(),
                n == before.len(),
                self.units@.len() == n,
                all == shots(before),
                shot_views(fired@) == all,
                self@ == (BattleStateView { units: self@.units, ..old(self)@ }),
                forall|i: int|
                    0 <= i < n ==> (#[trigger] self.units@[i])@ == (CombatUnitView {
                        weapons: self.units@[i]@.weapons,
                        ..before[i]
                    }) && self.units@[i].weapons@.len() == before[i].weapons.len(),
                forall|i: int, k: int|
                    0 <= i < n && 0 <= k < before[i].weapons.len() ==> (
                    #[trigger] self.units@[i].weapons@[k])@ == restarted(
                        before[i].weapons[k],
                        shot_among(all, m as int, (i, k)),
                    ),
            decreases fired@.len() - m,
        {
            let (i0, k0) = fired[m];
            proof {
                assert(all[m as int] == (i0 as int, k0 as int));
                lemma_shots_sound(before, n as int, m as int);
            }
            let ghost prev = self.units@;
            let full = self.units[i0].weapons[k0].cooldown;
            self.units[i0].weapons[k0].current_cooldown = full;
            proof {
                assert(forall|i: int| 0 <= i < n && i != i0 ==> self.units@[i] == prev[i]);
                assert(forall|k: int|
                    0 <= k < before[i0 as int].weapons.len() && k != k0
                        ==> self.units@[i0 as int].weapons@[k] == prev[i0 as int].weapons@[k]);
                assert forall|i: int, k: int|
                    0 <= i < n && 0 <= k < before[i].weapons.len() implies (
                #[trigger] self.units@[i].weapons@[k])@ == restarted(
                    before[i].weapons[k],
                    shot_among(all, m + 1, (i, k)),
                ) by {
                    let was = shot_among(all, m as int, (i, k));
                    let now = shot_among(all, m + 1, (i, k));
                    if was {
                        let j = choose|j: int| 0 <= j < m && #[trigger] all[j] == (i, k);
                        assert(0 <= j < m + 1 && all[j] == (i, k));
                    }
                    if i == i0 && k == k0 {
                        assert(all[m as int] == (i, k));
                        assert(now);
                        assert(prev[i].weapons@[k]@ == restarted(before[i].weapons[k], was));
                    } else {
                        if now {
                            let j = choose|j: int| 0 <= j < m + 1 && #[trigger] all[j] == (i, k);
                            assert(j != m);
                            assert(was);
                        }
                        assert(self.units@[i].weapons@[k] == prev[i].weapons@[k]);
                    }
                }
            }
            m += 1;
        }
        proof {
            assert forall|i: int| 0 <= i < n implies (#[trigger] self.units@[i])@ == fired_unit(
                before,
                i,
            ) by {
                assert forall|k: int| 0 <= k < before[i].weapons.len() implies (
                #[trigger] self.units@[i]@.weapons[k]) == fired_weapon(before, i, k) by {
                    assert(self.units@[i].weapons@[k]@ == restarted(
                        before[i].weapons[k],
                        shot_among(all, all.len() as int, (i, k)),
                    ));
                    if shot_among(all, all.len() as int, (i, k)) {
                        let j = choose|j: int| 0 <= j < all.len() && #[trigger] all[j] == (i, k);
                        lemma_shots_sound(before, n as int, j);
                    }
                    if fires(before, i, k) {
                        lemma_shots_complete(before, n as int, i, k);
                        let j = choose|j: int| 0 <= j < all.len() && all[j] == (i, k);
                        assert(0 <= j < all.len() && all[j] == (i, k));
                    }
                }
                assert(self.units@[i]@.weapons =~= fired_unit(before, i).weapons);
            }
            assert(self@.units =~= after_firing(before));
            if old(self).well_formed() {
                lemma_firing_keeps_invariant(before);
            }
        }
    }

    /// The damage pass: every queued hit, in queue order, is resolved to its
    /// defender by identifier and applied. Returns the identifiers of the
    /// units destroyed, in the order in which they died.
    pub fn apply_damage_events(&mut self, events: &Vec<DamageEvent>) -> (destroyed: Vec<u32>)
        requires
            old(self).well_formed(),
        ensures
            final(self)@ == (BattleStateView {
                units: apply_events(old(self)@.units, event_views(events@)),
                ..old(self)@
            }),
            destroyed@ == destroyed_by(old(self)@.units, event_views(events@)),
            final(self).well_formed(),
    {
        let ghost before = self@.units;
        let ghost queue = event_views(events@);
        let mut destroyed: Vec<u32> = Vec::new();
        let mut m: usize = 0;
        assert(queue.take(0) =~= Seq::empty());
        while m < events.len()
            invariant
                m <= events@.len(),
                queue == event_views(events@),
                self@ == (BattleStateView { units: self@.units, ..old(self)@ }),
                self@.units == apply_events(before, queue.take(m as int)),
                destroyed@ == destroyed_by(before, queue.take(m as int)),
                roster_well_formed(self@.units),
            decreases events@.len() - m,
        {
            let event = events[m];
            let ghost prev = self@.units;
            let ghost prev_units = self.units@;
            proof {
                assert(queue.take(m + 1).drop_last() =~= queue.take(m as int));
                assert(queue.take(m + 1).last() == event@);
                lemma_apply_event_keeps_invariant(prev, event@);
            }
            match self.find_slot(event.target_id) {
                Some(s) => {
                    assert(self.units@[s as int]@ == prev[s as int]);
                    assert(prev[s as int].well_formed());
                    let died = self.units[s].apply_damage(event.amount, event.damage_type);
                    proof {
                        assert(forall|j: int|
                            0 <= j < prev.len() && j != s ==> self.units@[j] == prev_units[j]);
                        assert(self@.units =~= apply_event(prev, event@));
                    }
                    if died {
                        destroyed.push(event.target_id);
                    }
                },
                None => {},
            }
            m += 1;
        }
        assert(queue.take(events@.len() as int) =~= queue);
        destroyed
    }
}

/// The turn counter and the elapsed time can both take one more tick.
pub open spec fn clock_has_room(state: BattleStateView) -> bool {
    state.turn < u32::MAX && state.time_elapsed <= i64::MAX - SCALE
}

/// The snapshot after the first half of a tick: the clock advanced by one
/// tick, then the movement pass, then the targeting pass.
pub open spec fn prepared(state: BattleStateView) -> BattleStateView {
    BattleStateView {
        units: after_targeting(after_movement(state.units)),
        turn: state.turn + 1,
        time_elapsed: state.time_elapsed + SCALE,
        ..state
    }
}

/// The snapshot after the second half of a tick: the attack pass queues its
/// hits under the given rolls and restarts the cooldowns of the weapons that
/// fired, the damage pass applies the hits, the cooldown pass runs.
pub open spec fn resolved(state: BattleStateView, rolls: Seq<u32>) -> BattleStateView {
    BattleStateView {
        units: after_cooldown(
            apply_events(after_firing(state.units), events_of(state.units, rolls)),
        ),
        ..state
    }
}

/// The identifiers of the units destroyed in the second half of a tick, in
/// the order in which they die.
pub open spec fn casualties(state: BattleStateView, rolls: Seq<u32>) -> Seq<u32> {
    destroyed_by(after_firing(state.units), events_of(state.units, rolls))
}

/// The snapshot after one whole tick under the given rolls.
pub open spec fn tick(state: BattleStateView, rolls: Seq<u32>) -> BattleStateView {
    resolved(prepared(state), rolls)
}

/// The identifiers of the units destroyed in one whole tick, in the order in
/// which they die.
pub open spec fn tick_casualties(state: BattleStateView, rolls: Seq<u32>) -> Seq<u32> {
    casualties(prepared(state), rolls)
}

/// A tick keeps the unit invariant: afterwards every living unit has
/// `0 < hp <= max_hp` and every dead unit has `hp == 0`.
pub proof fn lemma_tick_keeps_invariant(state: BattleStateView, rolls: Seq<u32>)
    requires
        state.well_formed(),
    ensures
        tick(state, rolls).well_formed(),
        forall|i: int|
            0 <= i < tick(state, rolls).units.len() ==> {
                let unit = #[trigger] tick(state, rolls).units[i];
                if unit.is_alive {
                    0 < unit.hp <= unit.max_hp
                } else {
                    unit.hp == 0
                }
            },
{
    lemma_movement_keeps_invariant(state.units);
    let moved = after_movement(state.units);
    lemma_targeting_keeps_invariant(moved);
    let aimed = after_targeting(moved);
    lemma_firing_keeps_invariant(aimed);
    lemma_apply_events_keeps_invariant(after_firing(aimed), events_of(aimed, rolls));
    lemma_cooldown_keeps_invariant(apply_events(after_firing(aimed), events_of(aimed, rolls)));
    let after = tick(state, rolls).units;
    assert forall|i: int| 0 <= i < after.len() implies {
        let unit = #[trigger] after[i];
        if unit.is_alive {
            0 < unit.hp <= unit.max_hp
        } else {
            unit.hp == 0
        }
    } by {
        assert(after[i].well_formed());
    }
}

/// A tick keeps the roster's length and every unit's identifier and
/// faction, raises nobody's health and revives nobody.
pub proof fn lemma_tick_never_revives(state: BattleStateView, rolls: Seq<u32>)
    requires
        state.well_formed(),
    ensures
        tick(state, rolls).units.len() == state.units.len(),
        forall|i: int|
            0 <= i < state.units.len() ==> {
                let after = #[trigger] tick(state, rolls).units[i];
                &&& after.hp <= state.units[i].hp
                &&& after.id == state.units[i].id
                &&& after.faction_idx == state.units[i].faction_idx
                &&& after.is_alive ==> state.units[i].is_alive
            },
{
    lemma_movement_keeps_invariant(state.units);
    let moved = after_movement(state.units);
    lemma_targeting_keeps_invariant(moved);
    let aimed = after_targeting(moved);
    lemma_firing_keeps_invariant(aimed);
    let fired = after_firing(aimed);
    let hit = apply_events(fired, events_of(aimed, rolls));
    lemma_apply_events_keeps_invariant(fired, events_of(aimed, rolls));
    let after = tick(state, rolls).units;
    assert forall|i: int| 0 <= i < state.units.len() implies {
        let unit = #[trigger] after[i];
        &&& unit.hp <= state.units[i].hp
        &&& unit.id == state.units[i].id
        &&& unit.faction_idx == state.units[i].faction_idx
        &&& unit.is_alive ==> state.units[i].is_alive
    } by {
        assert(moved[i].hp == state.units[i].hp);
        assert(aimed[i].hp == moved[i].hp);
        assert(fired[i].hp == aimed[i].hp);
        assert(hit[i].hp <= fired[i].hp);
        assert(after[i] == cooled_unit(hit[i]));
    }
}

/// A battle that is no longer contested stays that way: once at most one
/// faction has a living unit, no tick brings a second one back.
pub proof fn lemma_concluded_stays_concluded(state: BattleStateView, rolls: Seq<u32>)
    requires
        state.well_formed(),
        !contested(state.units),
    ensures
        !contested(tick(state, rolls).units),
{
    lemma_tick_never_revives(state, rolls);
    let after = tick(state, rolls).units;
    if contested(after) {
        let (i, j) = choose|i: int, j: int|
            0 <= i < after.len() && 0 <= j < after.len() && (#[trigger] after[i]).is_alive && (
            #[trigger] after[j]).is_alive && after[i].faction_idx != after[j].faction_idx;
        assert(state.units[i].is_alive && state.units[j].is_alive);
        assert(state.units[i].faction_idx != state.units[j].faction_idx);
    }
}

/// A tick is a function of the snapshot and the rolls alone: two runs from
/// equal snapshots under equal rolls end in equal snapshots, with the same
/// units destroyed in the same order.
pub proof fn lemma_tick_deterministic(
    first: BattleStateView,
    second: BattleStateView,
    first_rolls: Seq<u32>,
    second_rolls: Seq<u32>,
)
    requires
        first == second,
        first_rolls == second_rolls,
    ensures
        tick(first, first_rolls) == tick(second, second_rolls),
        tick_casualties(first, first_rolls) == tick_casualties(second, second_rolls),
{
}

/// Where every living unit belongs to one faction, the battle is no longer
/// contested.
pub proof fn lemma_one_faction_left_concludes(units: Seq<CombatUnitView>, faction: u8)
    requires
        forall|i: int|
            0 <= i < units.len() && (#[trigger] units[i]).is_alive ==> units[i].faction_idx
                == faction,
    ensures
        !contested(units),
{
}

/// Whether every roll lies within ten percent of neutral.
pub fn rolls_are_valid(rolls: &Vec<u32>) -> (ok: bool)
    ensures
        ok == valid_rolls(rolls@),
{
    let mut m: usize = 0;
    while m < rolls.len()
        invariant
            m <= rolls@.len(),
            forall|j: int| 0 <= j < m ==> valid_roll(#[trigger] rolls@[j]),
        decreases rolls@.len() - m,
    {
        if rolls[m] < VARIATION_MIN || rolls[m] > VARIATION_MAX {
            return false;
        }
        m += 1;
    }
    true
}

impl BattleState {
    /// Whether the turn counter and the elapsed time can take one more
    /// tick.
    pub fn has_clock_room(&self) -> (ok: bool)
        ensures
            ok == clock_has_room(self@),
    {
        self.turn < u32::MAX && self.time_elapsed <= i64::MAX - SCALE
    }

    /// First half of a tick: advances the clock, then runs the movement and
    /// targeting passes.
    pub fn begin_tick(&mut self)
        requires
            old(self).well_formed(),
            clock_has_room(old(self)@),
        ensures
            final(self)@ == prepared(old(self)@),
            final(self).well_formed(),
    {
        self.turn = self.turn + 1;
        self.time_elapsed = self.time_elapsed + SCALE;
        self.move_units();
        self.acquire_targets();
    }

    /// Second half of a tick: queues the hits of the weapons that fire,
    /// restarts their cooldowns, applies the hits and runs the cooldown
    /// pass. Returns the identifiers of the units destroyed, in the order
    /// in which they died.
    pub fn resolve_tick(&mut self, rolls: &Vec<u32>) -> (destroyed: Vec<u32>)
        requires
            old(self).well_formed(),
            valid_rolls(rolls@),
        ensures
            final(self)@ == resolved(old(self)@, rolls@),
            destroyed@ == casualties(old(self)@, rolls@),
            final(self).well_formed(),
    {
        let fired = self.pending_shots();
        let events = self.roll_events(&fired, rolls);
        self.reset_fired(&fired);
        let destroyed = self.apply_damage_events(&events);
        self.tick_cooldowns();
        destroyed
    }

    /// One whole tick under the given rolls. Returns the identifiers of the
    /// units destroyed, in the order in which they died.
    pub fn advance(&mut self, rolls: &Vec<u32>) -> (destroyed: Vec<u32>)
        requires
            old(self).well_formed(),
            clock_has_room(old(self)@),
            valid_rolls(rolls@),
        ensures
            final(self)@ == tick(old(self)@, rolls@),
            destroyed@ == tick_casualties(old(self)@, rolls@),
            final(self).well_formed(),
    {
        self.begin_tick();
        self.resolve_tick(rolls)
    }
}

} // verus!
