//! When the next audit is due: after a span of wall-clock time or after a
//! number of turns, whichever comes first.
use vstd::prelude::*;
use std::time::Instant;
use crate::clock::{millis_since, moment_now};

verus! {

/// Decides when audits are due.
pub struct AuditScheduler {
    last_audit_time: Instant,
    last_audit_turn: u64,
    interval_ms: u64,
    interval_turn: u64,
}

/// The part of a scheduler that its decisions are stated over.
pub struct AuditSchedule {
    pub last_audit_turn: u64,
    pub interval_ms: u64,
    pub interval_turn: u64,
}

/// Whether an audit is due, given the milliseconds that have passed since
/// the last one and the current turn.
pub open spec fn audit_due(schedule: AuditSchedule, elapsed_ms: int, current_turn: u64) -> bool {
    elapsed_ms >= schedule.interval_ms || current_turn - schedule.last_audit_turn
        >= schedule.interval_turn
}

impl View for AuditScheduler {
    type V = AuditSchedule;

    closed spec fn view(&self) -> AuditSchedule {
        AuditSchedule {
            last_audit_turn: self.last_audit_turn,
            interval_ms: self.interval_ms,
            interval_turn: self.interval_turn,
        }
    }
}

impl AuditScheduler {
    /// A scheduler whose last audit is now, at turn zero.
    pub fn new(interval_ms: u64, interval_turns: u64) -> (scheduler: Self)
        ensures
            scheduler@ == (AuditSchedule {
                last_audit_turn: 0,
                interval_ms,
                interval_turn: interval_turns,
            }),
    {
        AuditScheduler {
            last_audit_time: moment_now(),
            last_audit_turn: 0,
            interval_ms,
            interval_turn: interval_turns,
        }
    }

    /// Whether an audit is due at `current_turn` when `elapsed_ms`
    /// milliseconds have passed since the last one.
    pub fn due_after(&self, elapsed_ms: u128, current_turn: u64) -> (due: bool)
        requires
            current_turn >= self@.last_audit_turn,
        ensures
            due == audit_due(self@, elapsed_ms as int, current_turn),
    {
        let time_elapsed = elapsed_ms >= self.interval_ms as u128;
        let turn_elapsed = current_turn - self.last_audit_turn >= self.interval_turn;
        time_elapsed || turn_elapsed
    }

    /// Whether an audit is due at `current_turn`, reading the clock. Once
    /// the turn interval has passed an audit is due whatever the clock says.
    pub fn should_audit(&self, current_turn: u64) -> (due: bool)
        requires
            current_turn >= self@.last_audit_turn,
        ensures
            exists|elapsed_ms: int| 0 <= elapsed_ms && due == #[trigger] audit_due(
                self@,
                elapsed_ms,
                current_turn,
            ),
            current_turn - self@.last_audit_turn >= self@.interval_turn ==> due,
            self@.interval_ms == 0 ==> due,
    {
        let elapsed = millis_since(&self.last_audit_time);
        let due = self.due_after(elapsed, current_turn);
        assert(due == audit_due(self@, elapsed as int, current_turn));
        due
    }

    /// Records that an audit ran now, at `current_turn`.
    pub fn mark_audited(&mut self, current_turn: u64)
        ensures
            final(self)@ == (AuditSchedule { last_audit_turn: current_turn, ..old(self)@ }),
    {
        self.last_audit_time = moment_now();
        self.last_audit_turn = current_turn;
    }
}

} // verus!
