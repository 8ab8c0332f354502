//! Battlefield data model: weapons, units and the battle snapshot, each with
//! the mathematical view that the combat rules are stated over.
use vstd::prelude::*;
use crate::fixed::MAGNITUDE_LIMIT;
use crate::text::same_text;

pub mod mechanics;
pub mod targeting;
pub mod tick;
pub mod engine;

verus! {

/// Weapon families; each maps to exactly one damage type.
#[derive(Debug, Clone, Copy, PartialEq, Eq, Structural)]
pub enum WeaponType {
    Kinetic,
    Energy,
    Missile,
    Beam,
    Fighter,
}

/// Battlefield cover a unit is sheltered by.
#[derive(Debug, Clone, Copy, PartialEq, Eq, Structural)]
pub enum CoverType {
    Exposed,
    Light,
    Heavy,
    Fortified,
}

/// The weapon type that a type name stands for; an unknown name stands for
/// a kinetic weapon.
pub open spec fn weapon_type_named(name: Seq<char>) -> WeaponType {
    if name == "Energy"@ {
        WeaponType::Energy
    } else if name == "Missile"@ {
        WeaponType::Missile
    } else if name == "Beam"@ {
        WeaponType::Beam
    } else if name == "Fighter"@ {
        WeaponType::Fighter
    } else {
        WeaponType::Kinetic
    }
}

/// The cover category that a numeric code stands for; an unknown code stands
/// for no cover.
pub open spec fn cover_of_code(code: u8) -> CoverType {
    if code == 1 {
        CoverType::Light
    } else if code == 2 {
        CoverType::Heavy
    } else if code == 3 {
        CoverType::Fortified
    } else {
        CoverType::Exposed
    }
}

impl WeaponType {
    /// Reads a weapon type from its name.
    pub fn from_name(name: &str) -> (weapon_type: WeaponType)
        ensures
            weapon_type == weapon_type_named(name@),
    {
        if same_text(name, "Energy") {
            WeaponType::Energy
        } else if same_text(name, "Missile") {
            WeaponType::Missile
        } else if same_text(name, "Beam") {
            WeaponType::Beam
        } else if same_text(name, "Fighter") {
            WeaponType::Fighter
        } else {
            WeaponType::Kinetic
        }
    }
}

impl CoverType {
    /// Reads a cover category from its numeric code.
    pub fn from_code(code: u8) -> (cover: CoverType)
        ensures
            cover == cover_of_code(code),
    {
        if code == 1 {
            CoverType::Light
        } else if code == 2 {
            CoverType::Heavy
        } else if code == 3 {
            CoverType::Fortified
        } else {
            CoverType::Exposed
        }
    }
}

/// A weapon system mounted on a unit. Quantities are fixed-point.
#[derive(Debug)]
pub struct Weapon {
    pub name: String,
    pub weapon_type: WeaponType,
    pub range: i64,
    pub damage: i64,
    /// Reserved multiplier; no rule consumes it yet.
    pub accuracy: i64,
    pub cooldown: i64,
    pub current_cooldown: i64,
}

/// Mathematical view of a [`Weapon`].
pub struct WeaponView {
    pub name: Seq<char>,
    pub weapon_type: WeaponType,
    pub range: int,
    pub damage: int,
    pub accuracy: int,
    pub cooldown: int,
    pub current_cooldown: int,
}

impl View for Weapon {
    type V = WeaponView;

    open spec fn view(&self) -> WeaponView {
        WeaponView {
            name: self.name@,
            weapon_type: self.weapon_type,
            range: self.range as int,
            damage: self.damage as int,
            accuracy: self.accuracy as int,
            cooldown: self.cooldown as int,
            current_cooldown: self.current_cooldown as int,
        }
    }
}

/// A unit on the battlefield. Quantities are fixed-point.
#[derive(Debug)]
pub struct CombatUnit {
    pub id: u32,
    pub name: String,
    pub faction_idx: u8,
    pub hp: i64,
    pub max_hp: i64,
    pub shields: i64,
    pub max_shields: i64,
    /// Mitigation coefficient, not a percentage.
    pub armor: i64,
    /// Structural integrity between zero and one whole unit; reserved.
    pub integrity: i64,
    pub weapons: Vec<Weapon>,
    pub speed: i64,
    /// Reserved for accuracy rolls.
    pub evasion: i64,
    pub cover: CoverType,
    pub position: (i64, i64),
    /// Kept for extension; the movement pass does not read it.
    pub velocity: (i64, i64),
    /// Identifier of the current target: a weak relation resolved by lookup.
    pub target_id: Option<u32>,
    pub is_alive: bool,
}

/// Mathematical view of a [`CombatUnit`].
pub struct CombatUnitView {
    pub id: u32,
    pub name: Seq<char>,
    pub faction_idx: u8,
    pub hp: int,
    pub max_hp: int,
    pub shields: int,
    pub max_shields: int,
    pub armor: int,
    pub integrity: int,
    pub weapons: Seq<WeaponView>,
    pub speed: int,
    pub evasion: int,
    pub cover: CoverType,
    pub position: (int, int),
    pub velocity: (int, int),
    pub target_id: Option<u32>,
    pub is_alive: bool,
}

/// Views of a sequence of weapons, position by position.
pub open spec fn weapon_views(ws: Seq<Weapon>) -> Seq<WeaponView> {
    Seq::new(ws.len(), |k: int| ws[k]@)
}

/// Views of a roster, position by position.
pub open spec fn unit_views(us: Seq<CombatUnit>) -> Seq<CombatUnitView> {
    Seq::new(us.len(), |i: int| us[i]@)
}

impl View for CombatUnit {
    type V = CombatUnitView;

    open spec fn view(&self) -> CombatUnitView {
        CombatUnitView {
            id: self.id,
            name: self.name@,
            faction_idx: self.faction_idx,
            hp: self.hp as int,
            max_hp: self.max_hp as int,
            shields: self.shields as int,
            max_shields: self.max_shields as int,
            armor: self.armor as int,
            integrity: self.integrity as int,
            weapons: weapon_views(self.weapons@),
            speed: self.speed as int,
            evasion: self.evasion as int,
            cover: self.cover,
            position: (self.position.0 as int, self.position.1 as int),
            velocity: (self.velocity.0 as int, self.velocity.1 as int),
            target_id: self.target_id,
            is_alive: self.is_alive,
        }
    }
}

impl WeaponView {
    /// The base damage is small enough in magnitude that a rolled hit fits
    /// the fixed-point range.
    pub open spec fn well_formed(self) -> bool {
        -MAGNITUDE_LIMIT <= self.damage <= MAGNITUDE_LIMIT
    }
}

impl CombatUnitView {
    /// The position lies inside the representable battlefield, so that
    /// distances between units can be computed exactly.
    pub open spec fn positioned(self) -> bool {
        &&& -MAGNITUDE_LIMIT <= self.position.0 <= MAGNITUDE_LIMIT
        &&& -MAGNITUDE_LIMIT <= self.position.1 <= MAGNITUDE_LIMIT
    }

    /// The unit invariant: health within `[0, max_hp]`, the alive flag in
    /// step with health, a non-negative armor coefficient, a position inside
    /// the representable battlefield and well-formed weapons.
    pub open spec fn well_formed(self) -> bool {
        &&& 0 <= self.hp <= self.max_hp
        &&& self.is_alive <==> self.hp > 0
        &&& 0 <= self.armor
        &&& self.positioned()
        &&& forall|k: int| 0 <= k < self.weapons.len() ==> (#[trigger] self.weapons[k]).well_formed()
    }
}

impl Weapon {
    pub open spec fn well_formed(&self) -> bool {
        self@.well_formed()
    }
}

impl Weapon {
    /// Whether the weapon's range covers a target at squared distance `d2`.
    pub fn covers(&self, d2: i128) -> (covered: bool)
        ensures
            covered == (self@.range >= 0 && d2 <= self@.range * self@.range),
    {
        if self.range < 0 {
            return false;
        }
        let reach = self.range as i128;
        proof {
            assert(0 <= reach * reach <= 0x4000_0000_0000_0000_0000_0000_0000_0000)
                by (nonlinear_arith)
                requires
                    0 <= reach < 0x8000_0000_0000_0000,
            ;
        }
        d2 <= reach * reach
    }
}

impl Weapon {
    /// A weapon ready to fire, with its type read from the type's name.
    pub fn from_parts(
        name: String,
        kind_name: &str,
        range: i64,
        damage: i64,
        accuracy: i64,
        cooldown: i64,
    ) -> (weapon: Self)
        ensures
            weapon@ == (WeaponView {
                name: name@,
                weapon_type: weapon_type_named(kind_name@),
                range: range as int,
                damage: damage as int,
                accuracy: accuracy as int,
                cooldown: cooldown as int,
                current_cooldown: 0,
            }),
    {
        Weapon {
            name,
            weapon_type: WeaponType::from_name(kind_name),
            range,
            damage,
            accuracy,
            cooldown,
            current_cooldown: 0,
        }
    }

    /// Whether the weapon satisfies its invariant.
    pub fn is_well_formed(&self) -> (ok: bool)
        ensures
            ok == self.well_formed(),
    {
        -MAGNITUDE_LIMIT <= self.damage && self.damage <= MAGNITUDE_LIMIT
    }
}

impl CombatUnit {
    /// A fresh unit at full health and full shields, placed and equipped:
    /// what [`CombatUnit::new`] gives, with the remaining attributes set
    /// and the cover read from its numeric code (none where no code is
    /// given).
    pub fn assemble(
        id: u32,
        name: String,
        faction_idx: u8,
        max_hp: i64,
        position: (i64, i64),
        weapons: Vec<Weapon>,
        speed: i64,
        evasion: i64,
        shields_max: i64,
        armor: i64,
        cover_val: Option<u8>,
    ) -> (unit: Self)
        ensures
            unit@ == (CombatUnitView {
                id,
                name: name@,
                faction_idx,
                hp: max_hp as int,
                max_hp: max_hp as int,
                shields: shields_max as int,
                max_shields: shields_max as int,
                armor: armor as int,
                integrity: crate::fixed::SCALE as int,
                weapons: weapon_views(weapons@),
                speed: speed as int,
                evasion: evasion as int,
                cover: cover_of_code(
                    match cover_val {
                        Some(code) => code,
                        None => 0,
                    },
                ),
                position: (position.0 as int, position.1 as int),
                velocity: (0, 0),
                target_id: None,
                is_alive: max_hp > 0,
            }),
    {
        let mut unit = CombatUnit::new(id, name, faction_idx, max_hp);
        unit.position = position;
        unit.speed = speed;
        unit.evasion = evasion;
        unit.shields = shields_max;
        unit.max_shields = shields_max;
        unit.armor = armor;
        unit.cover = CoverType::from_code(
            match cover_val {
                Some(code) => code,
                None => 0,
            },
        );
        unit.weapons = weapons;
        unit
    }

    /// Whether the unit satisfies the unit invariant.
    pub fn is_well_formed(&self) -> (ok: bool)
        ensures
            ok == self.well_formed(),
    {
        if !(0 <= self.hp && self.hp <= self.max_hp && self.is_alive == (self.hp > 0) && 0
            <= self.armor && -MAGNITUDE_LIMIT <= self.position.0 && self.position.0
            <= MAGNITUDE_LIMIT && -MAGNITUDE_LIMIT <= self.position.1 && self.position.1
            <= MAGNITUDE_LIMIT) {
            return false;
        }
        let mut k: usize = 0;
        while k < self.weapons.len()
            invariant
                k <= self.weapons@.len(),
                forall|j: int| 0 <= j < k ==> (#[trigger] self@.weapons[j]).well_formed(),
            decreases self.weapons@.len() - k,
        {
            assert(self.weapons@[k as int]@ == self@.weapons[k as int]);
            if !self.weapons[k].is_well_formed() {
                return false;
            }
            k += 1;
        }
        true
    }
}

impl Clone for Weapon {
    fn clone(&self) -> (copy: Self)
        ensures
            copy@ == self@,
    {
        Weapon {
            name: self.name.clone(),
            weapon_type: self.weapon_type,
            range: self.range,
            damage: self.damage,
            accuracy: self.accuracy,
            cooldown: self.cooldown,
            current_cooldown: self.current_cooldown,
        }
    }
}

impl Clone for CombatUnit {
    fn clone(&self) -> (copy: Self)
        ensures
            copy@ == self@,
    {
        let mut weapons: Vec<Weapon> = Vec::new();
        let mut k: usize = 0;
        while k < self.weapons.len()
            invariant
                k <= self.weapons@.len(),
                weapons@.len() == k,
                forall|j: int| 0 <= j < k ==> (#[trigger] weapons@[j])@ == self.weapons@[j]@,
            decreases self.weapons@.len() - k,
        {
            weapons.push(self.weapons[k].clone());
            k += 1;
        }
        let copy = CombatUnit {
            id: self.id,
            name: self.name.clone(),
            faction_idx: self.faction_idx,
            hp: self.hp,
            max_hp: self.max_hp,
            shields: self.shields,
            max_shields: self.max_shields,
            armor: self.armor,
            integrity: self.integrity,
            weapons,
            speed: self.speed,
            evasion: self.evasion,
            cover: self.cover,
            position: (self.position.0, self.position.1),
            velocity: (self.velocity.0, self.velocity.1),
            target_id: self.target_id,
            is_alive: self.is_alive,
        };
        assert(copy@.weapons =~= self@.weapons);
        copy
    }
}

impl CombatUnit {
    pub open spec fn well_formed(&self) -> bool {
        self@.well_formed()
    }

    /// A fresh unit at full health, unarmed, unshielded and at the origin.
    /// It is alive exactly when `max_hp` is positive.
    pub fn new(id: u32, name: String, faction_idx: u8, max_hp: i64) -> (unit: Self)
        ensures
            unit@ == (CombatUnitView {
                id,
                name: name@,
                faction_idx,
                hp: max_hp as int,
                max_hp: max_hp as int,
                shields: 0,
                max_shields: 0,
                armor: 0,
                integrity: crate::fixed::SCALE as int,
                weapons: Seq::empty(),
                speed: 0,
                evasion: 0,
                cover: CoverType::Exposed,
                position: (0, 0),
                velocity: (0, 0),
                target_id: None,
                is_alive: max_hp > 0,
            }),
            max_hp >= 0 ==> unit.well_formed(),
    {
        let unit = CombatUnit {
            id,
            name,
            faction_idx,
            hp: max_hp,
            max_hp,
            shields: 0,
            max_shields: 0,
            armor: 0,
            integrity: crate::fixed::SCALE,
            weapons: Vec::new(),
            speed: 0,
            evasion: 0,
            cover: CoverType::Exposed,
            position: (0, 0),
            velocity: (0, 0),
            target_id: None,
            is_alive: max_hp > 0,
        };
        assert(unit@.weapons =~= Seq::empty());
        unit
    }

    /// Whether the unit still has health left.
    pub fn is_alive(&self) -> (alive: bool)
        ensures
            alive == (self@.hp > 0),
    {
        self.hp > 0
    }
}

/// The battlefield snapshot: the roster in insertion order, the grid bounds,
/// the turn counter, the elapsed simulated time and the run identifier under
/// which this battle's events are correlated.
pub struct BattleState {
    pub units: Vec<CombatUnit>,
    pub grid_size: (i64, i64),
    pub turn: u32,
    pub time_elapsed: i64,
    pub run_id: String,
}

/// Mathematical view of a [`BattleState`].
pub struct BattleStateView {
    pub units: Seq<CombatUnitView>,
    pub grid_size: (int, int),
    pub turn: int,
    pub time_elapsed: int,
    pub run_id: Seq<char>,
}

impl View for BattleState {
    type V = BattleStateView;

    open spec fn view(&self) -> BattleStateView {
        BattleStateView {
            units: unit_views(self.units@),
            grid_size: (self.grid_size.0 as int, self.grid_size.1 as int),
            turn: self.turn as int,
            time_elapsed: self.time_elapsed as int,
            run_id: self.run_id@,
        }
    }
}

/// Every unit of the roster satisfies the unit invariant.
pub open spec fn roster_well_formed(units: Seq<CombatUnitView>) -> bool {
    forall|i: int| 0 <= i < units.len() ==> (#[trigger] units[i]).well_formed()
}

/// Every unit of the roster is inside the representable battlefield.
pub open spec fn roster_positioned(units: Seq<CombatUnitView>) -> bool {
    forall|i: int| 0 <= i < units.len() ==> (#[trigger] units[i]).positioned()
}

/// No identifier occurs twice in the roster.
pub open spec fn ids_distinct(units: Seq<CombatUnitView>) -> bool {
    forall|i: int, j: int|
        0 <= i < units.len() && 0 <= j < units.len() && i != j ==> (#[trigger] units[i]).id != (
        #[trigger] units[j]).id
}

/// `i` is the first roster position whose unit carries `id`.
pub open spec fn is_first_with_id(units: Seq<CombatUnitView>, id: u32, i: int) -> bool {
    &&& 0 <= i < units.len()
    &&& units[i].id == id
    &&& forall|j: int| 0 <= j < i ==> (#[trigger] units[j]).id != id
}

/// The roster position that an identifier resolves to: the first unit that
/// carries it, if any does.
pub open spec fn slot_of(units: Seq<CombatUnitView>, id: u32) -> Option<int> {
    if exists|i: int| is_first_with_id(units, id, i) {
        Some(choose|i: int| is_first_with_id(units, id, i))
    } else {
        None
    }
}

/// The first position carrying an identifier is what the identifier
/// resolves to.
pub proof fn lemma_slot_of_first(units: Seq<CombatUnitView>, id: u32, i: int)
    requires
        is_first_with_id(units, id, i),
    ensures
        slot_of(units, id) == Some(i),
{
    let c = choose|c: int| is_first_with_id(units, id, c);
    assert(is_first_with_id(units, id, c));
    if c < i {
        assert(units[c].id != id);
    } else if i < c {
        assert(units[i].id != id);
    }
}

/// An identifier that no unit carries resolves to nothing, and one that
/// resolves names a position that carries it.
pub proof fn lemma_slot_of_sound(units: Seq<CombatUnitView>, id: u32)
    ensures
        match slot_of(units, id) {
            Some(i) => is_first_with_id(units, id, i),
            None => forall|j: int| 0 <= j < units.len() ==> (#[trigger] units[j]).id != id,
        },
{
    if exists|i: int| is_first_with_id(units, id, i) {
    } else {
        assert forall|j: int| 0 <= j < units.len() implies (#[trigger] units[j]).id != id by {
            lemma_no_first_no_carrier(units, id, j);
        }
    }
}

/// If no position is the first to carry an identifier, no position up to
/// `j` carries it at all.
proof fn lemma_no_first_no_carrier(units: Seq<CombatUnitView>, id: u32, j: int)
    requires
        0 <= j < units.len(),
        !exists|i: int| is_first_with_id(units, id, i),
    ensures
        units[j].id != id,
    decreases j,
{
    if units[j].id == id {
        if forall|k: int| 0 <= k < j ==> (#[trigger] units[k]).id != id {
            assert(is_first_with_id(units, id, j));
        } else {
            let k = choose|k: int| 0 <= k < j && (#[trigger] units[k]).id == id;
            lemma_no_first_no_carrier(units, id, k);
        }
    }
}

impl BattleStateView {
    pub open spec fn well_formed(self) -> bool {
        roster_well_formed(self.units)
    }
}

impl BattleState {
    /// Every unit of the roster satisfies the unit invariant.
    pub open spec fn well_formed(&self) -> bool {
        self@.well_formed()
    }

    /// An empty battlefield of the given dimensions, at turn zero.
    pub fn new(width: i64, height: i64) -> (state: Self)
        ensures
            state@ == (BattleStateView {
                units: Seq::empty(),
                grid_size: (width as int, height as int),
                turn: 0,
                time_elapsed: 0,
                run_id: Seq::empty(),
            }),
            state.well_formed(),
    {
        let state = BattleState {
            units: Vec::new(),
            grid_size: (width, height),
            turn: 0,
            time_elapsed: 0,
            run_id: String::new(),
        };
        assert(state@.units =~= Seq::empty());
        state
    }

    /// Appends a unit, with its weapons already attached, to the roster.
    /// Identifiers are expected to be distinct: an identifier resolves to
    /// the first unit that carries it, so a unit added under an identifier
    /// already in use is never found by it.
    pub fn add_unit(&mut self, unit: CombatUnit)
        ensures
            final(self)@ == (BattleStateView { units: old(self)@.units.push(unit@), ..old(self)@ }),
            old(self).well_formed() && unit.well_formed() ==> final(self).well_formed(),
    {
        self.units.push(unit);
        assert(self@.units =~= old(self)@.units.push(unit@));
    }

    /// The roster position that `id` resolves to.
    pub fn find_slot(&self, id: u32) -> (slot: Option<usize>)
        ensures
            match slot {
                Some(i) => slot_of(self@.units, id) == Some(i as int),
                None => slot_of(self@.units, id).is_none(),
            },
    {
        let mut i: usize = 0;
        while i < self.units.len()
            invariant
                i <= self.units@.len(),
                forall|j: int| 0 <= j < i ==> (#[trigger] self@.units[j]).id != id,
            decreases self.units@.len() - i,
        {
            if self.units[i].id == id {
                proof {
                    lemma_slot_of_first(self@.units, id, i as int);
                }
                return Some(i);
            }
            i += 1;
        }
        proof {
            lemma_slot_of_sound(self@.units, id);
        }
        None
    }

    /// The unit that `id` resolves to, if the roster holds one.
    pub fn get_unit(&self, id: u32) -> (found: Option<&CombatUnit>)
        ensures
            match found {
                Some(unit) => slot_of(self@.units, id).is_some() && *unit == self.units@[slot_of(
                    self@.units,
                    id,
                ).unwrap()],
                None => slot_of(self@.units, id).is_none(),
            },
    {
        match self.find_slot(id) {
            Some(i) => Some(&self.units[i]),
            None => None,
        }
    }

    /// Mutable access to the unit that `id` resolves to, if the roster
    /// holds one. Whatever the caller writes through the reference becomes
    /// that roster position; nothing else changes.
    pub fn get_unit_mut(&mut self, id: u32) -> (found: Option<&mut CombatUnit>)
        ensures
            match found {
                Some(unit) => {
                    &&& slot_of(old(self)@.units, id).is_some()
                    &&& *unit == old(self).units@[slot_of(old(self)@.units, id).unwrap()]
                    &&& final(self).units@ == old(self).units@.update(
                        slot_of(old(self)@.units, id).unwrap(),
                        *final(unit),
                    )
                    &&& final(self).grid_size == old(self).grid_size
                    &&& final(self).turn == old(self).turn
                    &&& final(self).time_elapsed == old(self).time_elapsed
                    &&& final(self).run_id == old(self).run_id
                },
                None => slot_of(old(self)@.units, id).is_none() && *final(self) == *old(self),
            },
    {
        match self.find_slot(id) {
            Some(i) => Some(&mut self.units[i]),
            None => None,
        }
    }

    /// Whether every unit of the roster satisfies the unit invariant.
    pub fn is_well_formed(&self) -> (ok: bool)
        ensures
            ok == self.well_formed(),
    {
        let mut i: usize = 0;
        while i < self.units.len()
            invariant
                i <= self.units@.len(),
                forall|j: int| 0 <= j < i ==> (#[trigger] self@.units[j]).well_formed(),
            decreases self.units@.len() - i,
        {
            assert(self.units@[i as int]@ == self@.units[i as int]);
            if !self.units[i].is_well_formed() {
                return false;
            }
            i += 1;
        }
        true
    }

    /// Whether no identifier occurs twice in the roster.
    pub fn has_distinct_ids(&self) -> (ok: bool)
        ensures
            ok == ids_distinct(self@.units),
    {
        let mut i: usize = 0;
        while i < self.units.len()
            invariant
                i <= self.units@.len(),
                forall|a: int, b: int|
                    0 <= a < i && 0 <= b < self.units@.len() && a != b ==> (
                    #[trigger] self@.units[a]).id != (#[trigger] self@.units[b]).id,
            decreases self.units@.len() - i,
        {
            let mut j: usize = 0;
            while j < self.units.len()
                invariant
                    i < self.units@.len(),
                    j <= self.units@.len(),
                    forall|b: int|
                        0 <= b < j && b != i ==> self@.units[i as int].id != (
                        #[trigger] self@.units[b]).id,
                decreases self.units@.len() - j,
            {
                assert(self.units@[i as int]@ == self@.units[i as int]);
                assert(self.units@[j as int]@ == self@.units[j as int]);
                if j != i && self.units[i].id == self.units[j].id {
                    return false;
                }
                j += 1;
            }
            i += 1;
        }
        true
    }
}

} // verus!
