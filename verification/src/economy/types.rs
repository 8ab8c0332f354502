//! Resource amounts and the records the income engine works on.
use vstd::prelude::*;
use vstd::string::StringExecFns;
use crate::fixed::trunc_div;
use crate::text::same_text;

verus! {

/// Number of fixed-point steps in one whole resource unit, and the value
/// that stands for a factor of one.
pub const SCALE_FACTOR: i128 = 1_000_000;

/// Resource amounts as mathematical integers.
pub struct Resources {
    pub credits: int,
    pub minerals: int,
    pub energy: int,
    pub research: int,
}

/// The value fits a signed 128-bit integer.
pub open spec fn fits_i128(v: int) -> bool {
    i128::MIN <= v <= i128::MAX
}

impl Resources {
    pub open spec fn zero() -> Resources {
        Resources { credits: 0, minerals: 0, energy: 0, research: 0 }
    }

    /// Componentwise sum.
    pub open spec fn plus(self, other: Resources) -> Resources {
        Resources {
            credits: self.credits + other.credits,
            minerals: self.minerals + other.minerals,
            energy: self.energy + other.energy,
            research: self.research + other.research,
        }
    }

    /// Componentwise difference.
    pub open spec fn minus(self, other: Resources) -> Resources {
        Resources {
            credits: self.credits - other.credits,
            minerals: self.minerals - other.minerals,
            energy: self.energy - other.energy,
            research: self.research - other.research,
        }
    }

    /// Componentwise product with a plain integer.
    pub open spec fn times(self, factor: int) -> Resources {
        Resources {
            credits: self.credits * factor,
            minerals: self.minerals * factor,
            energy: self.energy * factor,
            research: self.research * factor,
        }
    }

    /// Componentwise product with a fixed-point factor, rounded toward zero.
    pub open spec fn scaled(self, factor_scaled: int) -> Resources {
        Resources {
            credits: trunc_div(self.credits * factor_scaled, SCALE_FACTOR as int),
            minerals: trunc_div(self.minerals * factor_scaled, SCALE_FACTOR as int),
            energy: trunc_div(self.energy * factor_scaled, SCALE_FACTOR as int),
            research: trunc_div(self.research * factor_scaled, SCALE_FACTOR as int),
        }
    }

    /// Componentwise half, rounded toward zero.
    pub open spec fn halved(self) -> Resources {
        Resources {
            credits: trunc_div(self.credits, 2),
            minerals: trunc_div(self.minerals, 2),
            energy: trunc_div(self.energy, 2),
            research: trunc_div(self.research, 2),
        }
    }

    /// Every component fits a signed 128-bit integer.
    pub open spec fn fits(self) -> bool {
        &&& fits_i128(self.credits)
        &&& fits_i128(self.minerals)
        &&& fits_i128(self.energy)
        &&& fits_i128(self.research)
    }
}

/// Amounts of the four resources, in fixed point.
#[derive(Debug, Clone, Copy, PartialEq, Eq, Structural)]
pub struct ResourceState {
    pub credits: i128,
    pub minerals: i128,
    pub energy: i128,
    pub research: i128,
}

impl View for ResourceState {
    type V = Resources;

    open spec fn view(&self) -> Resources {
        Resources {
            credits: self.credits as int,
            minerals: self.minerals as int,
            energy: self.energy as int,
            research: self.research as int,
        }
    }
}

impl Default for ResourceState {
    fn default() -> (state: Self)
        ensures
            state@ == Resources::zero(),
    {
        ResourceState { credits: 0, minerals: 0, energy: 0, research: 0 }
    }
}

impl ResourceState {
    /// Adds another amount, component by component.
    pub fn add(&mut self, other: &ResourceState)
        requires
            old(self)@.plus(other@).fits(),
        ensures
            final(self)@ == old(self)@.plus(other@),
    {
        self.credits = self.credits + other.credits;
        self.minerals = self.minerals + other.minerals;
        self.energy = self.energy + other.energy;
        self.research = self.research + other.research;
    }

    /// Subtracts another amount, component by component.
    pub fn subtract(&mut self, other: &ResourceState)
        requires
            old(self)@.minus(other@).fits(),
        ensures
            final(self)@ == old(self)@.minus(other@),
    {
        self.credits = self.credits - other.credits;
        self.minerals = self.minerals - other.minerals;
        self.energy = self.energy - other.energy;
        self.research = self.research - other.research;
    }

    /// Multiplies every component by a fixed-point factor, rounding toward
    /// zero.
    pub fn multiply_fixed(&mut self, factor_scaled: i128)
        requires
            old(self)@.times(factor_scaled as int).fits(),
        ensures
            final(self)@ == old(self)@.scaled(factor_scaled as int),
    {
        self.credits = (self.credits * factor_scaled) / SCALE_FACTOR;
        self.minerals = (self.minerals * factor_scaled) / SCALE_FACTOR;
        self.energy = (self.energy * factor_scaled) / SCALE_FACTOR;
        self.research = (self.research * factor_scaled) / SCALE_FACTOR;
    }

    /// Multiplies every component by a plain integer.
    pub fn multiply_int(&mut self, factor: i128)
        requires
            old(self)@.times(factor as int).fits(),
        ensures
            final(self)@ == old(self)@.times(factor as int),
    {
        self.credits = self.credits * factor;
        self.minerals = self.minerals * factor;
        self.energy = self.energy * factor;
        self.research = self.research * factor;
    }

    /// Halves every component, rounding toward zero.
    pub fn halve(&mut self)
        ensures
            final(self)@ == old(self)@.halved(),
    {
        self.credits = self.credits / 2;
        self.minerals = self.minerals / 2;
        self.energy = self.energy / 2;
        self.research = self.research / 2;
    }

    /// Whether multiplying by `factor` keeps every component in range.
    pub fn product_fits(&self, factor: i128) -> (fits: bool)
        ensures
            fits == self@.times(factor as int).fits(),
    {
        self.credits.checked_mul(factor).is_some() && self.minerals.checked_mul(factor).is_some()
            && self.energy.checked_mul(factor).is_some() && self.research.checked_mul(
            factor,
        ).is_some()
    }

    /// Whether subtracting `other` keeps every component in range.
    pub fn difference_fits(&self, other: &ResourceState) -> (fits: bool)
        ensures
            fits == self@.minus(other@).fits(),
    {
        self.credits.checked_sub(other.credits).is_some() && self.minerals.checked_sub(
            other.minerals,
        ).is_some() && self.energy.checked_sub(other.energy).is_some()
            && self.research.checked_sub(other.research).is_some()
    }

    /// Whether adding `other` keeps every component in range.
    pub fn sum_fits(&self, other: &ResourceState) -> (fits: bool)
        ensures
            fits == self@.plus(other@).fits(),
    {
        self.credits.checked_add(other.credits).is_some() && self.minerals.checked_add(
            other.minerals,
        ).is_some() && self.energy.checked_add(other.energy).is_some()
            && self.research.checked_add(other.research).is_some()
    }
}

/// What kind of holding an economic node is.
#[derive(Debug, Clone, Copy, PartialEq, Eq, Structural)]
pub enum NodeType {
    Planet,
    Fleet,
    Army,
    Station,
}

/// A named adjustment of a node's income: a fixed-point multiplier, then a
/// flat bonus.
#[derive(Debug, Clone)]
pub struct EconomicModifier {
    pub name: String,
    pub multiplier_scaled: i128,
    pub flat_bonus: ResourceState,
}

/// A holding that earns income and costs upkeep.
#[derive(Debug, Clone)]
pub struct EconomicNode {
    pub id: String,
    pub owner_faction: String,
    pub node_type: NodeType,
    pub base_income: ResourceState,
    pub base_upkeep: ResourceState,
    pub efficiency_scaled: i128,
    pub modifiers: Vec<EconomicModifier>,
}

/// Economy-wide coefficients, in fixed point where they are fractions.
#[derive(Debug, Clone)]
pub struct GlobalEconomicRules {
    pub orbit_discount_scaled: i128,
    pub garrison_discount_scaled: i128,
    /// Fleets a faction may keep per planet before the navy penalty applies.
    pub navy_penalty_ratio: u32,
    pub navy_penalty_rate_scaled: i128,
    pub vassal_tribute_rate_scaled: i128,
    pub fleet_upkeep_scalar_scaled: i128,
}

impl Default for GlobalEconomicRules {
    fn default() -> (rules: Self)
        ensures
            rules.orbit_discount_scaled == 500_000,
            rules.garrison_discount_scaled == 250_000,
            rules.navy_penalty_ratio == 4,
            rules.navy_penalty_rate_scaled == 50_000,
            rules.vassal_tribute_rate_scaled == 200_000,
            rules.fleet_upkeep_scalar_scaled == 1_000_000,
    {
        GlobalEconomicRules {
            orbit_discount_scaled: 500_000,
            garrison_discount_scaled: 250_000,
            navy_penalty_ratio: 4,
            navy_penalty_rate_scaled: 50_000,
            vassal_tribute_rate_scaled: 200_000,
            fleet_upkeep_scalar_scaled: 1_000_000,
        }
    }
}

/// One line of a ledger: a name and the amount booked under it.
#[derive(Debug, Clone)]
pub struct LedgerEntry {
    pub name: String,
    pub amount: ResourceState,
}

/// Amounts booked under names, each name at most once, in the order in
/// which the names were first booked.
#[derive(Debug, Clone)]
pub struct ResourceLedger {
    pub entries: Vec<LedgerEntry>,
}

/// Position `i` of the ledger is booked under `name`.
pub open spec fn is_entry_of(entries: Seq<LedgerEntry>, name: Seq<char>, i: int) -> bool {
    0 <= i < entries.len() && entries[i].name@ == name
}

/// No two lines of the ledger share a name.
pub open spec fn names_distinct(entries: Seq<LedgerEntry>) -> bool {
    forall|i: int, j: int|
        0 <= i < entries.len() && 0 <= j < entries.len() && i != j ==> (
        #[trigger] entries[i]).name@ != (#[trigger] entries[j]).name@
}

impl ResourceLedger {
    /// The ledger invariant: no name is booked twice.
    pub open spec fn well_formed(&self) -> bool {
        names_distinct(self.entries@)
    }

    /// Something is booked under `name`.
    pub open spec fn lists(&self, name: Seq<char>) -> bool {
        exists|i: int| is_entry_of(self.entries@, name, i)
    }

    /// The amount booked under `name`; zero where nothing is.
    pub open spec fn total(&self, name: Seq<char>) -> Resources {
        if self.lists(name) {
            self.entries@[choose|i: int| is_entry_of(self.entries@, name, i)].amount@
        } else {
            Resources::zero()
        }
    }

    /// In a well-formed ledger the line booked under a name is the amount
    /// of that name.
    pub proof fn lemma_total_at(&self, name: Seq<char>, i: int)
        requires
            self.well_formed(),
            is_entry_of(self.entries@, name, i),
        ensures
            self.lists(name),
            self.total(name) == self.entries@[i].amount@,
    {
        let c = choose|c: int| is_entry_of(self.entries@, name, c);
        assert(is_entry_of(self.entries@, name, c));
        if c != i {
            assert(self.entries@[c].name@ != self.entries@[i].name@);
        }
    }

    /// An empty ledger.
    pub fn new() -> (ledger: Self)
        ensures
            ledger.entries@.len() == 0,
            ledger.well_formed(),
            forall|name: Seq<char>| !ledger.lists(name),
            forall|name: Seq<char>| ledger.total(name) == Resources::zero(),
    {
        ResourceLedger { entries: Vec::new() }
    }

    /// The line booked under `name`, if there is one.
    pub fn find(&self, name: &str) -> (slot: Option<usize>)
        ensures
            match slot {
                Some(i) => is_entry_of(self.entries@, name@, i as int),
                None => !self.lists(name@),
            },
    {
        let mut i: usize = 0;
        while i < self.entries.len()
            invariant
                i <= self.entries@.len(),
                forall|j: int| 0 <= j < i ==> (#[trigger] self.entries@[j]).name@ != name@,
            decreases self.entries@.len() - i,
        {
            if same_text(self.entries[i].name.as_str(), name) {
                return Some(i);
            }
            i += 1;
        }
        None
    }

    /// The amount booked under `name`, if anything is.
    pub fn get(&self, name: &str) -> (amount: Option<ResourceState>)
        requires
            self.well_formed(),
        ensures
            match amount {
                Some(a) => self.lists(name@) && a@ == self.total(name@),
                None => !self.lists(name@),
            },
    {
        match self.find(name) {
            Some(i) => {
                proof {
                    self.lemma_total_at(name@, i as int);
                }
                Some(self.entries[i].amount)
            },
            None => None,
        }
    }

    /// Books `amount` under `name`: added to what the name already holds, or
    /// entered as a new line at the end.
    pub fn credit(&mut self, name: &str, amount: &ResourceState)
        requires
            old(self).well_formed(),
            old(self).total(name@).plus(amount@).fits(),
        ensures
            final(self).well_formed(),
            final(self).lists(name@),
            final(self).total(name@) == old(self).total(name@).plus(amount@),
            forall|other: Seq<char>|
                other != name@ ==> final(self).lists(other) == old(self).lists(other)
                    && final(self).total(other) == old(self).total(other),
    {
        let ghost before = *self;
        match self.find(name) {
            Some(i) => {
                proof {
                    before.lemma_total_at(name@, i as int);
                }
                self.entries[i].amount.add(amount);
                proof {
                    assert(forall|j: int|
                        0 <= j < before.entries@.len() && j != i ==> self.entries@[j]
                            == before.entries@[j]);
                    assert(self.entries@[i as int].name == before.entries@[i as int].name);
                    assert forall|a: int, b: int|
                        0 <= a < self.entries@.len() && 0 <= b < self.entries@.len() && a
                            != b implies (#[trigger] self.entries@[a]).name@ != (
                    #[trigger] self.entries@[b]).name@ by {
                        assert(before.entries@[a].name@ != before.entries@[b].name@);
                    }
                    assert(is_entry_of(self.entries@, name@, i as int));
                    self.lemma_total_at(name@, i as int);
                    assert forall|other: Seq<char>| other != name@ implies self.lists(other)
                        == before.lists(other) && self.total(other) == before.total(other) by {
                        if before.lists(other) {
                            let c = choose|c: int| is_entry_of(before.entries@, other, c);
                            assert(is_entry_of(self.entries@, other, c));
                            before.lemma_total_at(other, c);
                            self.lemma_total_at(other, c);
                        }
                        if self.lists(other) {
                            let c = choose|c: int| is_entry_of(self.entries@, other, c);
                            assert(is_entry_of(before.entries@, other, c));
                        }
                    }
                }
            },
            None => {
                let entry = LedgerEntry { name: String::from_str(name), amount: *amount };
                self.entries.push(entry);
                proof {
                    let last = before.entries@.len() as int;
                    assert(forall|j: int| 0 <= j < last ==> self.entries@[j] == before.entries@[j]);
                    assert forall|a: int, b: int|
                        0 <= a < self.entries@.len() && 0 <= b < self.entries@.len() && a
                            != b implies (#[trigger] self.entries@[a]).name@ != (
                    #[trigger] self.entries@[b]).name@ by {
                        if a < last && b < last {
                            assert(before.entries@[a].name@ != before.entries@[b].name@);
                        } else if a < last {
                            assert(!is_entry_of(before.entries@, name@, a));
                        } else {
                            assert(!is_entry_of(before.entries@, name@, b));
                        }
                    }
                    assert(is_entry_of(self.entries@, name@, last));
                    self.lemma_total_at(name@, last);
                    assert forall|other: Seq<char>| other != name@ implies self.lists(other)
                        == before.lists(other) && self.total(other) == before.total(other) by {
                        if before.lists(other) {
                            let c = choose|c: int| is_entry_of(before.entries@, other, c);
                            assert(is_entry_of(self.entries@, other, c));
                            before.lemma_total_at(other, c);
                            self.lemma_total_at(other, c);
                        }
                        if self.lists(other) {
                            let c = choose|c: int| is_entry_of(self.entries@, other, c);
                            assert(is_entry_of(before.entries@, other, c));
                        }
                    }
                }
            },
        }
    }
}

} // verus!
