//! The battle engine: owns the battlefield snapshot, advances it one tick at
//! a time and reports destroyed units to an attached event log.
use vstd::prelude::*;
use vstd::string::StringExecFns;
use rand::Rng;
use crate::combat::{
    BattleState, BattleStateView, CombatUnit, CombatUnitView, CoverType, cover_of_code, slot_of,
};
use crate::combat::mechanics::{VARIATION_MAX, VARIATION_MIN};
use crate::combat::tick::{clock_has_room, contested, prepared, shots, tick, valid_rolls};
use crate::observability::{CorrelationContext, Event, EventLog, EventSeverity};
use crate::text::{decimal_digits, decimal_string};

verus! {

/// A battle in progress.
pub struct BattleEngine {
    pub state: BattleState,
    /// Where destruction events are sent, once a log is attached.
    pub event_log: Option<EventLog>,
    /// The context that emitted events are derived from.
    pub current_context: CorrelationContext,
}

/// A uniformly drawn integer from `low` up to but not including `high`:
/// `rand::Rng::gen_range` on `rand::thread_rng()`, which panics on an empty
/// range and otherwise returns a member of the range.
#[verifier::external_body]
fn draw_between(low: u32, high: u32) -> (value: u32)
    requires
        low < high,
    ensures
        low <= value < high,
{
    rand::thread_rng().gen_range(low..high)
}

/// Draws `count` damage variation factors.
pub fn draw_rolls(count: usize) -> (rolls: Vec<u32>)
    ensures
        rolls@.len() == count,
        valid_rolls(rolls@),
{
    let mut rolls: Vec<u32> = Vec::new();
    while rolls.len() < count
        invariant
            rolls@.len() <= count,
            valid_rolls(rolls@),
        decreases count - rolls@.len(),
    {
        let roll = draw_between(VARIATION_MIN, VARIATION_MAX);
        rolls.push(roll);
    }
    rolls
}

/// The text of the event that reports a unit's destruction.
pub open spec fn destruction_message(target_id: u32) -> Seq<char> {
    "Unit "@ + decimal_digits(target_id as nat) + " destroyed by Unit Unknown"@
}

/// The event that reports a unit's destruction: informational, in the
/// combat category, under a child of the given context.
pub fn destruction_event(target_id: u32, context: &CorrelationContext) -> (event: Event)
    ensures
        event.severity == EventSeverity::Info,
        event.category@ == "Combat"@,
        event.message@ == destruction_message(target_id),
        event.context.trace_id@ == context.trace_id@,
        event.context.parent_id.is_some(),
        event.context.parent_id.unwrap()@ == context.span_id@,
        event.data.is_none(),
{
    let mut message = String::from_str("Unit ");
    let digits = decimal_string(target_id as u128);
    message.append(digits.as_str());
    message.append(" destroyed by Unit Unknown");
    Event::new(
        EventSeverity::Info,
        String::from_str("Combat"),
        message,
        context.child(),
        None,
    )
}

impl BattleEngine {
    /// An engine for an empty battlefield of the given dimensions, with no
    /// event log and a fresh root context.
    pub fn new(width: i64, height: i64) -> (engine: Self)
        ensures
            engine.state@ == (BattleStateView {
                units: Seq::empty(),
                grid_size: (width as int, height as int),
                turn: 0,
                time_elapsed: 0,
                run_id: Seq::empty(),
            }),
            engine.state.well_formed(),
            engine.event_log.is_none(),
            engine.current_context.parent_id.is_none(),
    {
        BattleEngine {
            state: BattleState::new(width, height),
            event_log: None,
            current_context: CorrelationContext::new(),
        }
    }

    /// Attaches the log that destruction events are sent to.
    pub fn set_event_log(&mut self, log: EventLog)
        ensures
            final(self).event_log == Some(log),
            final(self).state == old(self).state,
            final(self).current_context == old(self).current_context,
    {
        self.event_log = Some(log);
    }

    /// Installs the context that emitted events are derived from; the
    /// snapshot's run identifier becomes the context's trace identifier.
    pub fn set_correlation_context(&mut self, context: CorrelationContext)
        ensures
            final(self).current_context == context,
            final(self).state@ == (BattleStateView {
                run_id: context.trace_id@,
                ..old(self).state@
            }),
            final(self).event_log == old(self).event_log,
    {
        self.state.run_id = context.trace_id.clone();
        self.current_context = context;
    }

    /// Appends a unit, with its weapons already attached, to the roster.
    pub fn add_unit(&mut self, unit: CombatUnit)
        ensures
            final(self).state@ == (BattleStateView {
                units: old(self).state@.units.push(unit@),
                ..old(self).state@
            }),
            old(self).state.well_formed() && unit.well_formed() ==> final(self).state.well_formed(),
            final(self).event_log == old(self).event_log,
            final(self).current_context == old(self).current_context,
    {
        self.state.add_unit(unit);
    }

    /// Sets the cover of the unit that `unit_id` resolves to from a numeric
    /// code; does nothing where the identifier does not resolve.
    pub fn set_unit_cover(&mut self, unit_id: u32, cover_val: u8)
        ensures
            final(self).state@ == (BattleStateView {
                units: match slot_of(old(self).state@.units, unit_id) {
                    Some(s) => old(self).state@.units.update(
                        s,
                        CombatUnitView {
                            cover: cover_of_code(cover_val),
                            ..old(self).state@.units[s]
                        },
                    ),
                    None => old(self).state@.units,
                },
                ..old(self).state@
            }),
            old(self).state.well_formed() ==> final(self).state.well_formed(),
            final(self).event_log == old(self).event_log,
            final(self).current_context == old(self).current_context,
    {
        let ghost before = self.state.units@;
        match self.state.find_slot(unit_id) {
            Some(s) => {
                self.state.units[s].cover = CoverType::from_code(cover_val);
                proof {
                    assert(forall|j: int|
                        0 <= j < before.len() && j != s ==> self.state.units@[j] == before[j]);
                    assert(self.state@.units =~= old(self).state@.units.update(
                        s as int,
                        CombatUnitView {
                            cover: cover_of_code(cover_val),
                            ..old(self).state@.units[s as int]
                        },
                    ));
                    if old(self).state.well_formed() {
                        assert forall|j: int| 0 <= j < before.len() implies (
                        #[trigger] self.state@.units[j]).well_formed() by {
                            assert(old(self).state@.units[j].well_formed());
                        }
                    }
                }
            },
            None => {
                assert(self.state@.units =~= old(self).state@.units);
            },
        }
    }

    /// Sends one destruction event per destroyed unit, in order, to the
    /// attached log. Without a log nothing is sent.
    fn report_destroyed(&self, destroyed: &Vec<u32>) {
        match &self.event_log {
            Some(log) => {
                let mut m: usize = 0;
                while m < destroyed.len()
                    invariant
                        m <= destroyed@.len(),
                    decreases destroyed@.len() - m,
                {
                    log.add(destruction_event(destroyed[m], &self.current_context));
                    m += 1;
                }
            },
            None => {},
        }
    }

    /// Advances the battle by one tick under the given damage variation
    /// factors and reports the destroyed units to the attached log. Returns
    /// whether more than one faction still has a living unit.
    pub fn step_with_rolls(&mut self, rolls: &Vec<u32>) -> (ongoing: bool)
        requires
            old(self).state.well_formed(),
            clock_has_room(old(self).state@),
            valid_rolls(rolls@),
        ensures
            final(self).state@ == tick(old(self).state@, rolls@),
            ongoing == contested(final(self).state@.units),
            final(self).state.well_formed(),
            final(self).event_log == old(self).event_log,
            final(self).current_context == old(self).current_context,
    {
        let destroyed = self.state.advance(rolls);
        self.report_destroyed(&destroyed);
        self.state.is_contested()
    }

    /// Advances the battle by one tick, drawing one damage variation factor
    /// per shot, and reports the destroyed units to the attached log.
    /// Returns whether more than one faction still has a living unit.
    pub fn step(&mut self) -> (ongoing: bool)
        requires
            old(self).state.well_formed(),
            clock_has_room(old(self).state@),
        ensures
            exists|rolls: Seq<u32>|
                valid_rolls(rolls) && rolls.len() == shots(prepared(old(self).state@).units).len()
                    && final(self).state@ == #[trigger] tick(old(self).state@, rolls),
            ongoing == contested(final(self).state@.units),
            final(self).state.well_formed(),
            final(self).event_log == old(self).event_log,
            final(self).current_context == old(self).current_context,
    {
        self.state.begin_tick();
        let fired = self.state.pending_shots();
        let rolls = draw_rolls(fired.len());
        let destroyed = self.state.resolve_tick(&rolls);
        proof {
            assert(self.state@ == tick(old(self).state@, rolls@));
        }
        self.report_destroyed(&destroyed);
        self.state.is_contested()
    }

    /// Health, shields and alive flag of the unit that `id` resolves to.
    pub fn get_unit_status(&self, id: u32) -> (status: Option<(i64, i64, bool)>)
        ensures
            match status {
                Some((hp, shields, alive)) => {
                    &&& slot_of(self.state@.units, id).is_some()
                    &&& hp == self.state@.units[slot_of(self.state@.units, id).unwrap()].hp
                    &&& shields == self.state@.units[slot_of(self.state@.units, id).unwrap()].shields
                    &&& alive == self.state@.units[slot_of(self.state@.units, id).unwrap()].is_alive
                },
                None => slot_of(self.state@.units, id).is_none(),
            },
    {
        match self.state.find_slot(id) {
            Some(s) => {
                assert(self.state.units@[s as int]@ == self.state@.units[s as int]);
                let unit = &self.state.units[s];
                Some((unit.hp, unit.shields, unit.is_alive))
            },
            None => None,
        }
    }

    /// For every unit in roster order: identifier, position, health and
    /// alive flag.
    pub fn get_state(&self) -> (rows: Vec<(u32, i64, i64, i64, bool)>)
        ensures
            rows@.len() == self.state@.units.len(),
            forall|i: int|
                0 <= i < rows@.len() ==> {
                    let row = #[trigger] rows@[i];
                    let unit = self.state@.units[i];
                    &&& row.0 == unit.id
                    &&& row.1 == unit.position.0
                    &&& row.2 == unit.position.1
                    &&& row.3 == unit.hp
                    &&& row.4 == unit.is_alive
                },
    {
        let mut rows: Vec<(u32, i64, i64, i64, bool)> = Vec::new();
        let mut i: usize = 0;
        while i < self.state.units.len()
            invariant
                i <= self.state.units@.len(),
                rows@.len() == i,
                forall|j: int|
                    0 <= j < i ==> {
                        let row = #[trigger] rows@[j];
                        let unit = self.state@.units[j];
                        &&& row.0 == unit.id
                        &&& row.1 == unit.position.0
                        &&& row.2 == unit.position.1
                        &&& row.3 == unit.hp
                        &&& row.4 == unit.is_alive
                    },
            decreases self.state.units@.len() - i,
        {
            let unit = &self.state.units[i];
            assert(unit@ == self.state@.units[i as int]);
            rows.push((unit.id, unit.position.0, unit.position.1, unit.hp, unit.is_alive));
            i += 1;
        }
        rows
    }
}

} // verus!
