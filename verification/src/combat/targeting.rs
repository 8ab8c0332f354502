//! Target acquisition: the nearest living enemy, by exhaustive scan and
//! through a uniform-grid spatial index.
use vstd::prelude::*;
use vstd::arithmetic::div_mod::{
    lemma_div_is_ordered, lemma_fundamental_div_mod, lemma_fundamental_div_mod_converse,
};
use std::collections::HashMap;
use crate::combat::{
    ids_distinct, lemma_slot_of_sound, roster_positioned, BattleState, CombatUnit, CombatUnitView,
};

verus! {

/// Squared Euclidean distance between two points.
pub open spec fn squared_distance(a: (int, int), b: (int, int)) -> int {
    (b.0 - a.0) * (b.0 - a.0) + (b.1 - a.1) * (b.1 - a.1)
}

/// A candidate may be targeted by an attacker when it is alive, is not the
/// attacker itself and belongs to another faction.
pub open spec fn is_valid_target(attacker: CombatUnitView, candidate: CombatUnitView) -> bool {
    &&& candidate.is_alive
    &&& candidate.id != attacker.id
    &&& candidate.faction_idx != attacker.faction_idx
}

/// Roster position `i` holds a valid target that no valid target is nearer
/// than, and that comes first in the roster among the equally near.
pub open spec fn is_nearest_enemy(
    attacker: CombatUnitView,
    units: Seq<CombatUnitView>,
    i: int,
) -> bool {
    &&& 0 <= i < units.len()
    &&& is_valid_target(attacker, units[i])
    &&& forall|j: int|
        0 <= j < units.len() && is_valid_target(attacker, #[trigger] units[j]) ==> squared_distance(
            attacker.position,
            units[i].position,
        ) <= squared_distance(attacker.position, units[j].position)
    &&& forall|j: int|
        0 <= j < i && is_valid_target(attacker, #[trigger] units[j]) ==> squared_distance(
            attacker.position,
            units[i].position,
        ) < squared_distance(attacker.position, units[j].position)
}

/// The roster position of the target an attacker acquires, if there is one.
pub open spec fn best_target_slot(attacker: CombatUnitView, units: Seq<CombatUnitView>) -> Option<
    int,
> {
    if exists|i: int| is_nearest_enemy(attacker, units, i) {
        Some(choose|i: int| is_nearest_enemy(attacker, units, i))
    } else {
        None
    }
}

/// The identifier of the target an attacker acquires: the nearest valid
/// enemy, the first in roster order among the equally near, or nothing
/// where the roster holds no valid enemy.
pub open spec fn best_target(attacker: CombatUnitView, units: Seq<CombatUnitView>) -> Option<u32> {
    match best_target_slot(attacker, units) {
        Some(i) => Some(units[i].id),
        None => None,
    }
}

/// At most one roster position is the nearest enemy.
pub proof fn lemma_nearest_enemy_unique(
    attacker: CombatUnitView,
    units: Seq<CombatUnitView>,
    i: int,
    k: int,
)
    requires
        is_nearest_enemy(attacker, units, i),
        is_nearest_enemy(attacker, units, k),
    ensures
        i == k,
{
    if i < k {
        assert(is_valid_target(attacker, units[i]));
    } else if k < i {
        assert(is_valid_target(attacker, units[k]));
    }
}

/// A position that is the nearest enemy is the acquired target.
pub proof fn lemma_best_target_is(attacker: CombatUnitView, units: Seq<CombatUnitView>, i: int)
    requires
        is_nearest_enemy(attacker, units, i),
    ensures
        best_target_slot(attacker, units) == Some(i),
        best_target(attacker, units) == Some(units[i].id),
{
    let c = choose|c: int| is_nearest_enemy(attacker, units, c);
    lemma_nearest_enemy_unique(attacker, units, i, c);
}

/// The acquired target, when there is one, is a living unit of another
/// faction and not the attacker; when there is none, the roster holds no
/// valid target at all.
pub proof fn lemma_best_target_valid(attacker: CombatUnitView, units: Seq<CombatUnitView>)
    ensures
        match best_target_slot(attacker, units) {
            Some(i) => {
                &&& is_nearest_enemy(attacker, units, i)
                &&& units[i].is_alive
                &&& units[i].id != attacker.id
                &&& units[i].faction_idx != attacker.faction_idx
            },
            None => forall|j: int|
                0 <= j < units.len() ==> !is_valid_target(attacker, #[trigger] units[j]),
        },
{
    if !exists|i: int| is_nearest_enemy(attacker, units, i) {
        assert forall|j: int| 0 <= j < units.len() implies !is_valid_target(
            attacker,
            #[trigger] units[j],
        ) by {
            if is_valid_target(attacker, units[j]) {
                lemma_nearest_exists(attacker, units, units.len() as int, j);
            }
        }
    }
}

/// Position `i` is the nearest enemy among the first `n` roster positions.
pub open spec fn is_nearest_in_prefix(
    attacker: CombatUnitView,
    units: Seq<CombatUnitView>,
    n: int,
    i: int,
) -> bool {
    &&& 0 <= i < n <= units.len()
    &&& is_valid_target(attacker, units[i])
    &&& forall|j: int|
        0 <= j < n && is_valid_target(attacker, #[trigger] units[j]) ==> squared_distance(
            attacker.position,
            units[i].position,
        ) <= squared_distance(attacker.position, units[j].position)
    &&& forall|j: int|
        0 <= j < i && is_valid_target(attacker, #[trigger] units[j]) ==> squared_distance(
            attacker.position,
            units[i].position,
        ) < squared_distance(attacker.position, units[j].position)
}

/// A prefix that holds a valid target holds a nearest one.
proof fn lemma_nearest_exists(
    attacker: CombatUnitView,
    units: Seq<CombatUnitView>,
    n: int,
    j: int,
)
    requires
        0 <= j < n <= units.len(),
        is_valid_target(attacker, units[j]),
    ensures
        exists|i: int| is_nearest_in_prefix(attacker, units, n, i),
        n == units.len() ==> exists|i: int| is_nearest_enemy(attacker, units, i),
    decreases n,
{
    let last = n - 1;
    let has_earlier = exists|e: int| 0 <= e < last && is_valid_target(attacker, #[trigger] units[e]);
    if has_earlier {
        let e = choose|e: int| 0 <= e < last && is_valid_target(attacker, #[trigger] units[e]);
        lemma_nearest_exists(attacker, units, last, e);
        let p = choose|p: int| is_nearest_in_prefix(attacker, units, last, p);
        if is_valid_target(attacker, units[last]) && squared_distance(
            attacker.position,
            units[last].position,
        ) < squared_distance(attacker.position, units[p].position) {
            assert(is_nearest_in_prefix(attacker, units, n, last));
        } else {
            assert(is_nearest_in_prefix(attacker, units, n, p));
        }
    } else {
        assert(j == last);
        assert(is_nearest_in_prefix(attacker, units, n, last));
    }
    if n == units.len() {
        let w = choose|w: int| is_nearest_in_prefix(attacker, units, n, w);
        assert(is_nearest_enemy(attacker, units, w));
    }
}

impl CombatUnit {
    /// Squared distance from this unit to another.
    pub fn squared_distance_to(&self, other: &CombatUnit) -> (d: i128)
        requires
            self@.positioned(),
            other@.positioned(),
        ensures
            d == squared_distance(self@.position, other@.position),
            0 <= d <= 8_000_000_000_000_000_000_000_000_000_000_000_000,
    {
        let dx: i128 = (other.position.0 as i128) - (self.position.0 as i128);
        let dy: i128 = (other.position.1 as i128) - (self.position.1 as i128);
        proof {
            assert(0 <= dx * dx <= 4_000_000_000_000_000_000_000_000_000_000_000_000)
                by (nonlinear_arith)
                requires
                    -2_000_000_000_000_000_000 <= dx <= 2_000_000_000_000_000_000,
            ;
            assert(0 <= dy * dy <= 4_000_000_000_000_000_000_000_000_000_000_000_000)
                by (nonlinear_arith)
                requires
                    -2_000_000_000_000_000_000 <= dy <= 2_000_000_000_000_000_000,
            ;
        }
        dx * dx + dy * dy
    }

    /// Whether this unit may target `candidate`.
    pub fn can_target(&self, candidate: &CombatUnit) -> (valid: bool)
        ensures
            valid == is_valid_target(self@, candidate@),
    {
        candidate.is_alive && candidate.id != self.id && candidate.faction_idx != self.faction_idx
    }
}

/// Acquires a target for `attacker` by scanning the whole roster: the
/// nearest valid enemy, the first in roster order among the equally near.
pub fn find_best_target(attacker: &CombatUnit, state: &BattleState) -> (target: Option<u32>)
    requires
        attacker@.positioned(),
        roster_positioned(state@.units),
    ensures
        target == best_target(attacker@, state@.units),
{
    let ghost units = state@.units;
    let mut best_id: Option<u32> = None;
    let mut best_distance: i128 = 0;
    let ghost mut best_slot: int = 0;
    let mut i: usize = 0;
    while i < state.units.len()
        invariant
            i <= state.units@.len(),
            units == state@.units,
            attacker@.positioned(),
            roster_positioned(units),
            match best_id {
                Some(id) => is_nearest_in_prefix(attacker@, units, i as int, best_slot)
                    && units[best_slot].id == id && best_distance == squared_distance(
                    attacker@.position,
                    units[best_slot].position,
                ),
                None => forall|j: int| 0 <= j < i ==> !is_valid_target(attacker@, #[trigger] units[j]),
            },
        decreases state.units@.len() - i,
    {
        let candidate = &state.units[i];
        assert(candidate@ == units[i as int]);
        if attacker.can_target(candidate) {
            let d = attacker.squared_distance_to(candidate);
            if best_id.is_none() || d < best_distance {
                best_id = Some(candidate.id);
                best_distance = d;
                proof {
                    best_slot = i as int;
                }
            }
        }
        i += 1;
    }
    proof {
        match best_id {
            Some(id) => {
                assert(is_nearest_enemy(attacker@, units, best_slot));
                lemma_best_target_is(attacker@, units, best_slot);
            },
            None => {
                if exists|k: int| is_nearest_enemy(attacker@, units, k) {
                    let k = choose|k: int| is_nearest_enemy(attacker@, units, k);
                    assert(is_valid_target(attacker@, units[k]));
                }
            },
        }
    }
    best_id
}

/// Smallest radius an indexed search looks around the attacker (50 whole
/// units), so that short-ranged attackers still find nearby threats.
pub const MIN_SEARCH_RADIUS: i64 = 50_000_000;

/// A uniform-grid index over the living units of a roster: each cell of the
/// grid holds the identifiers of the units standing in it. Cells are keyed
/// by their two coordinates packed into one number.
pub struct SpatialHash {
    pub cells: HashMap<u128, Vec<u32>>,
    pub cell_size: i64,
}

/// A cell coordinate that a 64-bit position can fall in.
pub open spec fn is_cell_coordinate(c: int) -> bool {
    i64::MIN <= c <= i64::MAX
}

/// The grid coordinate of a position along one axis: the position divided
/// by the cell size, rounded down.
pub open spec fn cell_coordinate(x: int, cell_size: int) -> int {
    x / cell_size
}

/// The key under which the cell at `(cx, cy)` is stored.
pub open spec fn cell_key(cx: int, cy: int) -> int {
    (cx + 0x8000_0000_0000_0000) * 0x1_0000_0000_0000_0000 + (cy + 0x8000_0000_0000_0000)
}

/// The identifiers of the living units among the first `n` of a roster that
/// stand in the cell at `(cx, cy)`, in roster order.
pub open spec fn cell_members(
    units: Seq<CombatUnitView>,
    cell_size: int,
    cx: int,
    cy: int,
    n: int,
) -> Seq<u32>
    decreases n,
{
    if n <= 0 {
        Seq::empty()
    } else if units[n - 1].is_alive && cell_coordinate(units[n - 1].position.0, cell_size) == cx
        && cell_coordinate(units[n - 1].position.1, cell_size) == cy {
        cell_members(units, cell_size, cx, cy, n - 1).push(units[n - 1].id)
    } else {
        cell_members(units, cell_size, cx, cy, n - 1)
    }
}

/// Distinct cells are stored under distinct keys.
pub proof fn lemma_cell_key_injective(ax: int, ay: int, bx: int, by: int)
    requires
        is_cell_coordinate(ax),
        is_cell_coordinate(ay),
        is_cell_coordinate(bx),
        is_cell_coordinate(by),
        cell_key(ax, ay) == cell_key(bx, by),
    ensures
        ax == bx,
        ay == by,
{
}

/// The grid coordinate of a 64-bit position is a cell coordinate.
pub proof fn lemma_cell_coordinate_in_range(x: int, cell_size: int)
    requires
        is_cell_coordinate(x),
        cell_size > 0,
    ensures
        is_cell_coordinate(cell_coordinate(x, cell_size)),
{
    lemma_div_is_ordered(x, i64::MAX as int, cell_size);
    lemma_div_is_ordered(i64::MIN as int, x, cell_size);
    assert((i64::MAX as int) / cell_size <= i64::MAX) by (nonlinear_arith)
        requires
            cell_size > 0,
    ;
    assert((i64::MIN as int) / cell_size >= i64::MIN) by (nonlinear_arith)
        requires
            cell_size > 0,
    ;
}

/// Grid coordinate of a position along one axis.
pub fn cell_coordinate_of(x: i64, cell_size: i64) -> (c: i64)
    requires
        cell_size > 0,
    ensures
        c == cell_coordinate(x as int, cell_size as int),
{
    let q = x / cell_size;
    let r = x % cell_size;
    proof {
        let d = cell_size as int;
        lemma_cell_coordinate_in_range(x as int, d);
        if x < 0 {
            let m = -(x as int);
            lemma_fundamental_div_mod(m, d);
            assert(q == -(m / d));
            assert(r == -(m % d));
            assert(x == q * d + r) by (nonlinear_arith)
                requires
                    m == d * (m / d) + (m % d),
                    q == -(m / d),
                    r == -(m % d),
                    x == -m,
            ;
            if r < 0 {
                assert(x == (q - 1) * d + (r + d)) by (nonlinear_arith)
                    requires
                        x == q * d + r,
                ;
                lemma_fundamental_div_mod_converse(x as int, d, q as int - 1, r as int + d);
            } else {
                lemma_fundamental_div_mod_converse(x as int, d, q as int, r as int);
            }
        }
    }
    if r < 0 {
        q - 1
    } else {
        q
    }
}

/// Key of the cell at `(cx, cy)`.
pub fn cell_key_of(cx: i64, cy: i64) -> (key: u128)
    ensures
        key == cell_key(cx as int, cy as int),
{
    let high: u128 = ((cx as i128) + 0x8000_0000_0000_0000) as u128;
    let low: u128 = ((cy as i128) + 0x8000_0000_0000_0000) as u128;
    high * 0x1_0000_0000_0000_0000 + low
}

impl SpatialHash {
    /// The index can place positions: its cells have a positive size.
    pub open spec fn well_formed(&self) -> bool {
        self.cell_size > 0
    }

    /// The identifiers stored for the cell at `(cx, cy)`, in insertion
    /// order; empty for a cell nothing was stored in.
    pub open spec fn bucket(&self, cx: int, cy: int) -> Seq<u32> {
        if is_cell_coordinate(cx) && is_cell_coordinate(cy) && self.cells@.contains_key(
            cell_key(cx, cy) as u128,
        ) {
            self.cells@[cell_key(cx, cy) as u128]@
        } else {
            Seq::empty()
        }
    }

    /// The index holds exactly the living units of the roster, each in the
    /// cell it stands in.
    pub open spec fn indexes(&self, units: Seq<CombatUnitView>) -> bool {
        &&& self.well_formed()
        &&& forall|cx: int, cy: int| #[trigger]
            self.bucket(cx, cy) == cell_members(
                units,
                self.cell_size as int,
                cx,
                cy,
                units.len() as int,
            )
    }

    /// An empty index with the given cell size.
    pub fn new(cell_size: i64) -> (hash: Self)
        ensures
            hash.cell_size == cell_size,
            forall|cx: int, cy: int| #[trigger] hash.bucket(cx, cy) == Seq::<u32>::empty(),
    {
        SpatialHash { cells: HashMap::new(), cell_size }
    }

    /// Stores a unit's identifier in the cell the unit stands in.
    pub fn insert(&mut self, unit: &CombatUnit)
        requires
            old(self).well_formed(),
        ensures
            final(self).cell_size == old(self).cell_size,
            forall|cx: int, cy: int| #[trigger]
                final(self).bucket(cx, cy) == (if cx == cell_coordinate(
                    unit@.position.0,
                    old(self).cell_size as int,
                ) && cy == cell_coordinate(unit@.position.1, old(self).cell_size as int) {
                    old(self).bucket(cx, cy).push(unit.id)
                } else {
                    old(self).bucket(cx, cy)
                }),
    {
        let x = cell_coordinate_of(unit.position.0, self.cell_size);
        let y = cell_coordinate_of(unit.position.1, self.cell_size);
        let key = cell_key_of(x, y);
        let mut bucket = match self.cells.remove(&key) {
            Some(held) => held,
            None => Vec::new(),
        };
        bucket.push(unit.id);
        self.cells.insert(key, bucket);
        proof {
            assert forall|cx: int, cy: int| #[trigger]
                self.bucket(cx, cy) == (if cx == x && cy == y {
                    old(self).bucket(cx, cy).push(unit.id)
                } else {
                    old(self).bucket(cx, cy)
                }) by {
                if is_cell_coordinate(cx) && is_cell_coordinate(cy) {
                    if cell_key(cx, cy) == cell_key(x as int, y as int) {
                        lemma_cell_key_injective(cx, cy, x as int, y as int);
                    }
                }
            }
        }
    }

    /// Indexes the living units of a battle.
    pub fn build(state: &BattleState, cell_size: i64) -> (hash: Self)
        requires
            cell_size > 0,
        ensures
            hash.cell_size == cell_size,
            hash.indexes(state@.units),
    {
        let ghost units = state@.units;
        let mut hash = SpatialHash::new(cell_size);
        let mut i: usize = 0;
        while i < state.units.len()
            invariant
                i <= state.units@.len(),
                units == state@.units,
                hash.cell_size == cell_size,
                cell_size > 0,
                forall|cx: int, cy: int| #[trigger]
                    hash.bucket(cx, cy) == cell_members(units, cell_size as int, cx, cy, i as int),
            decreases state.units@.len() - i,
        {
            let unit = &state.units[i];
            assert(unit@ == units[i as int]);
            if unit.is_alive {
                hash.insert(unit);
            }
            assert forall|cx: int, cy: int| #[trigger]
                hash.bucket(cx, cy) == cell_members(units, cell_size as int, cx, cy, i + 1) by {}
            i += 1;
        }
        hash
    }
}

/// A coordinate brought into the range that 64-bit positions span.
pub open spec fn clamp_coordinate(v: int) -> int {
    if v < i64::MIN {
        i64::MIN as int
    } else if v > i64::MAX {
        i64::MAX as int
    } else {
        v
    }
}

/// One of the first `m` identifiers of a list is `id`.
pub open spec fn listed_before(ids: Seq<u32>, m: int, id: u32) -> bool {
    exists|k: int| 0 <= k < m && #[trigger] ids[k] == id
}

/// `(d, i)` comes no later than `(e, j)` when candidates are ordered by
/// distance and then by roster position.
pub open spec fn no_later(d: int, i: int, e: int, j: int) -> bool {
    d < e || (d == e && i <= j)
}

impl SpatialHash {
    /// The identifiers stored in the cells of column `cx` from row `y_lo`
    /// up to row `y_hi`, row by row.
    pub open spec fn column(&self, cx: int, y_lo: int, y_hi: int) -> Seq<u32>
        decreases y_hi - y_lo + 1,
    {
        if y_hi < y_lo {
            Seq::empty()
        } else {
            self.column(cx, y_lo, y_hi - 1) + self.bucket(cx, y_hi)
        }
    }

    /// The identifiers stored in the cells of the columns from `x_lo` up to
    /// `x_hi`, rows `y_lo` up to `y_hi`, column by column.
    pub open spec fn block(&self, x_lo: int, x_hi: int, y_lo: int, y_hi: int) -> Seq<u32>
        decreases x_hi - x_lo + 1,
    {
        if x_hi < x_lo {
            Seq::empty()
        } else {
            self.block(x_lo, x_hi - 1, y_lo, y_hi) + self.column(x_hi, y_lo, y_hi)
        }
    }

    /// The identifiers stored in the cells that overlap the square of the
    /// given radius around a position.
    pub open spec fn nearby(&self, pos: (int, int), radius: int) -> Seq<u32> {
        self.block(
            cell_coordinate(clamp_coordinate(pos.0 - radius), self.cell_size as int),
            cell_coordinate(clamp_coordinate(pos.0 + radius), self.cell_size as int),
            cell_coordinate(clamp_coordinate(pos.1 - radius), self.cell_size as int),
            cell_coordinate(clamp_coordinate(pos.1 + radius), self.cell_size as int),
        )
    }

    /// An identifier stored in a cell of a column is among the column's
    /// identifiers.
    pub proof fn lemma_column_covers(&self, cx: int, y_lo: int, y_hi: int, cy: int, id: u32)
        requires
            y_lo <= cy <= y_hi,
            self.bucket(cx, cy).contains(id),
        ensures
            self.column(cx, y_lo, y_hi).contains(id),
        decreases y_hi - y_lo + 1,
    {
        let all = self.column(cx, y_lo, y_hi);
        let below = self.column(cx, y_lo, y_hi - 1);
        let top = self.bucket(cx, y_hi);
        if cy == y_hi {
            let k = choose|k: int| 0 <= k < top.len() && top[k] == id;
            assert(all[below.len() + k] == id);
        } else {
            self.lemma_column_covers(cx, y_lo, y_hi - 1, cy, id);
            let k = choose|k: int| 0 <= k < below.len() && below[k] == id;
            assert(all[k] == id);
        }
    }

    /// An identifier stored in a cell of a block is among the block's
    /// identifiers.
    pub proof fn lemma_block_covers(
        &self,
        x_lo: int,
        x_hi: int,
        y_lo: int,
        y_hi: int,
        cx: int,
        cy: int,
        id: u32,
    )
        requires
            x_lo <= cx <= x_hi,
            y_lo <= cy <= y_hi,
            self.bucket(cx, cy).contains(id),
        ensures
            self.block(x_lo, x_hi, y_lo, y_hi).contains(id),
        decreases x_hi - x_lo + 1,
    {
        let all = self.block(x_lo, x_hi, y_lo, y_hi);
        let left = self.block(x_lo, x_hi - 1, y_lo, y_hi);
        let last = self.column(x_hi, y_lo, y_hi);
        if cx == x_hi {
            self.lemma_column_covers(cx, y_lo, y_hi, cy, id);
            let k = choose|k: int| 0 <= k < last.len() && last[k] == id;
            assert(all[left.len() + k] == id);
        } else {
            self.lemma_block_covers(x_lo, x_hi - 1, y_lo, y_hi, cx, cy, id);
            let k = choose|k: int| 0 <= k < left.len() && left[k] == id;
            assert(all[k] == id);
        }
    }

    /// The identifiers stored in the cells that overlap the square of the
    /// given radius around a position, column by column and row by row.
    pub fn get_nearby(&self, pos: (i64, i64), radius: i64) -> (ids: Vec<u32>)
        requires
            self.well_formed(),
        ensures
            ids@ == self.nearby((pos.0 as int, pos.1 as int), radius as int),
    {
        let min_x = cell_coordinate_of(clamp_to_i64(pos.0 as i128 - radius as i128), self.cell_size);
        let max_x = cell_coordinate_of(clamp_to_i64(pos.0 as i128 + radius as i128), self.cell_size);
        let min_y = cell_coordinate_of(clamp_to_i64(pos.1 as i128 - radius as i128), self.cell_size);
        let max_y = cell_coordinate_of(clamp_to_i64(pos.1 as i128 + radius as i128), self.cell_size);
        let mut ids: Vec<u32> = Vec::new();
        let mut x: i128 = min_x as i128;
        assert(ids@ =~= self.block(min_x as int, x - 1, min_y as int, max_y as int));
        while x <= max_x as i128
            invariant
                min_x <= x,
                x == min_x || x <= max_x + 1,
                ids@ == self.block(min_x as int, x - 1, min_y as int, max_y as int),
            decreases max_x + 1 - x,
        {
            let mut y: i128 = min_y as i128;
            assert(ids@ =~= self.block(min_x as int, x - 1, min_y as int, max_y as int)
                + self.column(x as int, min_y as int, y - 1));
            while y <= max_y as i128
                invariant
                    min_x <= x <= max_x,
                    min_y <= y,
                    y == min_y || y <= max_y + 1,
                    ids@ == self.block(min_x as int, x - 1, min_y as int, max_y as int) + self.column(
                        x as int,
                        min_y as int,
                        y - 1,
                    ),
                decreases max_y + 1 - y,
            {
                let key = cell_key_of(x as i64, y as i64);
                let ghost base = ids@;
                match self.cells.get(&key) {
                    Some(held) => {
                        let mut k: usize = 0;
                        assert(held@ == self.bucket(x as int, y as int));
                        assert(ids@ =~= base + held@.take(0));
                        while k < held.len()
                            invariant
                                k <= held@.len(),
                                ids@ == base + held@.take(k as int),
                            decreases held@.len() - k,
                        {
                            ids.push(held[k]);
                            assert(ids@ =~= base + held@.take(k + 1));
                            k += 1;
                        }
                        assert(held@.take(held@.len() as int) =~= held@);
                    },
                    None => {
                        assert(self.bucket(x as int, y as int) =~= Seq::<u32>::empty());
                    },
                }
                assert(ids@ =~= self.block(min_x as int, x - 1, min_y as int, max_y as int)
                    + self.column(x as int, min_y as int, y + 1 - 1));
                y += 1;
            }
            assert(self.column(x as int, min_y as int, y - 1) == self.column(
                x as int,
                min_y as int,
                max_y as int,
            ));
            assert(ids@ =~= self.block(min_x as int, x + 1 - 1, min_y as int, max_y as int));
            x += 1;
        }
        ids
    }
}

/// A 128-bit coordinate brought into the 64-bit range.
fn clamp_to_i64(v: i128) -> (c: i64)
    ensures
        c == clamp_coordinate(v as int),
{
    if v < i64::MIN as i128 {
        i64::MIN
    } else if v > i64::MAX as i128 {
        i64::MAX
    } else {
        v as i64
    }
}

/// A living unit of the first `n` is among the members of the cell it
/// stands in.
pub proof fn lemma_cell_members_cover(units: Seq<CombatUnitView>, cell_size: int, n: int, j: int)
    requires
        0 <= j < n <= units.len(),
        units[j].is_alive,
    ensures
        cell_members(
            units,
            cell_size,
            cell_coordinate(units[j].position.0, cell_size),
            cell_coordinate(units[j].position.1, cell_size),
            n,
        ).contains(units[j].id),
    decreases n,
{
    let cx = cell_coordinate(units[j].position.0, cell_size);
    let cy = cell_coordinate(units[j].position.1, cell_size);
    let all = cell_members(units, cell_size, cx, cy, n);
    let before = cell_members(units, cell_size, cx, cy, n - 1);
    if j == n - 1 {
        assert(all[before.len() as int] == units[j].id);
    } else {
        lemma_cell_members_cover(units, cell_size, n - 1, j);
        let k = choose|k: int| 0 <= k < before.len() && before[k] == units[j].id;
        assert(all[k] == units[j].id);
    }
}

/// A displacement whose square does not exceed the square of a radius does
/// not exceed the radius.
pub proof fn lemma_within_radius(dx: int, dy: int, radius: int)
    requires
        0 <= radius,
        dx * dx + dy * dy <= radius * radius,
    ensures
        -radius <= dx <= radius,
        -radius <= dy <= radius,
{
    assert(-radius <= dx <= radius && -radius <= dy <= radius) by (nonlinear_arith)
        requires
            0 <= radius,
            dx * dx + dy * dy <= radius * radius,
    ;
}

/// Every living unit no farther from a position than the search radius is
/// among the identifiers that the index returns for that position.
pub proof fn lemma_nearby_covers(
    hash: &SpatialHash,
    units: Seq<CombatUnitView>,
    pos: (int, int),
    radius: int,
    j: int,
)
    requires
        hash.indexes(units),
        0 <= j < units.len(),
        units[j].is_alive,
        units[j].positioned(),
        0 <= radius,
        squared_distance(pos, units[j].position) <= radius * radius,
    ensures
        hash.nearby(pos, radius).contains(units[j].id),
{
    let size = hash.cell_size as int;
    let x = units[j].position.0;
    let y = units[j].position.1;
    lemma_within_radius(x - pos.0, y - pos.1, radius);
    let lo_x = clamp_coordinate(pos.0 - radius);
    let hi_x = clamp_coordinate(pos.0 + radius);
    let lo_y = clamp_coordinate(pos.1 - radius);
    let hi_y = clamp_coordinate(pos.1 + radius);
    lemma_div_is_ordered(lo_x, x, size);
    lemma_div_is_ordered(x, hi_x, size);
    lemma_div_is_ordered(lo_y, y, size);
    lemma_div_is_ordered(y, hi_y, size);
    let cx = cell_coordinate(x, size);
    let cy = cell_coordinate(y, size);
    lemma_cell_members_cover(units, size, units.len() as int, j);
    assert(hash.bucket(cx, cy) == cell_members(units, size, cx, cy, units.len() as int));
    hash.lemma_block_covers(
        cell_coordinate(lo_x, size),
        cell_coordinate(hi_x, size),
        cell_coordinate(lo_y, size),
        cell_coordinate(hi_y, size),
        cx,
        cy,
        units[j].id,
    );
}

/// The radius an indexed search looks around a unit: its longest weapon
/// range, but at least the minimum search radius.
pub open spec fn search_radius(unit: CombatUnitView, k: int) -> int
    decreases k,
{
    if k <= 0 {
        MIN_SEARCH_RADIUS as int
    } else if unit.weapons[k - 1].range > search_radius(unit, k - 1) {
        unit.weapons[k - 1].range
    } else {
        search_radius(unit, k - 1)
    }
}

impl CombatUnit {
    /// The radius an indexed search looks around this unit.
    pub fn search_radius(&self) -> (radius: i64)
        ensures
            radius == search_radius(self@, self@.weapons.len() as int),
            radius >= MIN_SEARCH_RADIUS,
    {
        let mut radius = MIN_SEARCH_RADIUS;
        let mut k: usize = 0;
        while k < self.weapons.len()
            invariant
                k <= self.weapons@.len(),
                radius == search_radius(self@, k as int),
                radius >= MIN_SEARCH_RADIUS,
            decreases self.weapons@.len() - k,
        {
            assert(self.weapons@[k as int]@ == self@.weapons[k as int]);
            if self.weapons[k].range > radius {
                radius = self.weapons[k].range;
            }
            k += 1;
        }
        radius
    }
}

/// Acquires a target for `attacker` through the spatial index: the nearest
/// valid enemy among the units in the cells around the attacker where that
/// enemy lies within the search radius, and the result of the exhaustive
/// scan otherwise. Either way the result is the one the exhaustive scan
/// gives.
pub fn find_best_target_spatial(attacker: &CombatUnit, state: &BattleState, hash: &SpatialHash) -> (target:
    Option<u32>)
    requires
        attacker@.positioned(),
        roster_positioned(state@.units),
        ids_distinct(state@.units),
        hash.indexes(state@.units),
    ensures
        target == best_target(attacker@, state@.units),
{
    let ghost units = state@.units;
    let ghost origin = attacker@.position;
    let radius = attacker.search_radius();
    let nearby = hash.get_nearby(attacker.position, radius);
    let mut best: Option<(i128, usize)> = None;
    let mut m: usize = 0;
    while m < nearby.len()
        invariant
            m <= nearby@.len(),
            units == state@.units,
            origin == attacker@.position,
            attacker@.positioned(),
            roster_positioned(units),
            ids_distinct(units),
            match best {
                Some((d, i)) => {
                    &&& 0 <= i < units.len()
                    &&& is_valid_target(attacker@, units[i as int])
                    &&& d == squared_distance(origin, units[i as int].position)
                    &&& forall|j: int|
                        0 <= j < units.len() && is_valid_target(attacker@, #[trigger] units[j])
                            && listed_before(nearby@, m as int, units[j].id) ==> no_later(
                            d as int,
                            i as int,
                            squared_distance(origin, units[j].position),
                            j,
                        )
                },
                None => forall|j: int|
                    0 <= j < units.len() && is_valid_target(attacker@, #[trigger] units[j])
                        ==> !listed_before(nearby@, m as int, units[j].id),
            },
        decreases nearby@.len() - m,
    {
        let tid = nearby[m];
        let found = state.find_slot(tid);
        if let Some(s) = found {
            let candidate = &state.units[s];
            assert(candidate@ == units[s as int]);
            if attacker.can_target(candidate) {
                let d = attacker.squared_distance_to(candidate);
                let better = match best {
                    Some((bd, bi)) => d < bd || (d == bd && s < bi),
                    None => true,
                };
                if better {
                    best = Some((d, s));
                }
            }
        }
        proof {
            lemma_slot_of_sound(units, tid);
            assert forall|j: int|
                0 <= j < units.len() && is_valid_target(attacker@, #[trigger] units[j])
                    && listed_before(nearby@, m + 1, units[j].id) implies (match best {
                Some((d, i)) => no_later(
                    d as int,
                    i as int,
                    squared_distance(origin, units[j].position),
                    j,
                ),
                None => false,
            }) by {
                let k = choose|k: int| 0 <= k < m + 1 && #[trigger] nearby@[k] == units[j].id;
                if k < m {
                    assert(listed_before(nearby@, m as int, units[j].id));
                } else {
                    assert(units[j].id == tid);
                    match found {
                        Some(s) => {
                            if j != s {
                                assert(units[j].id != units[s as int].id);
                            }
                        },
                        None => {},
                    }
                }
            }
        }
        m += 1;
    }
    match best {
        Some((d, i)) => {
            let reach = radius as i128;
            proof {
                assert(0 <= reach * reach <= 0x4000_0000_0000_0000_0000_0000_0000_0000)
                    by (nonlinear_arith)
                    requires
                        0 <= reach < 0x8000_0000_0000_0000,
                ;
            }
            if d <= reach * reach {
                proof {
                    assert forall|j: int|
                        0 <= j < units.len() && is_valid_target(
                            attacker@,
                            #[trigger] units[j],
                        ) implies no_later(
                        d as int,
                        i as int,
                        squared_distance(origin, units[j].position),
                        j,
                    ) by {
                        if squared_distance(origin, units[j].position) <= reach * reach {
                            lemma_nearby_covers(hash, units, origin, radius as int, j);
                            let k = choose|k: int|
                                0 <= k < nearby@.len() && nearby@[k] == units[j].id;
                            assert(0 <= k < nearby@.len() && nearby@[k] == units[j].id);
                            assert(listed_before(nearby@, nearby@.len() as int, units[j].id));
                        }
                    }
                    assert(is_nearest_enemy(attacker@, units, i as int));
                    lemma_best_target_is(attacker@, units, i as int);
                }
                return Some(state.units[i].id);
            }
        },
        None => {},
    }
    find_best_target(attacker, state)
}

} // verus!
