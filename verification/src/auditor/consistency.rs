//! Invariants over a whole snapshot of game state.
use vstd::prelude::*;
use vstd::string::StringExecFns;
use crate::auditor::json::{value_as_array, value_as_fixed, value_as_text, value_get, JsonValue};
use crate::auditor::types::{
    finding, ValidationCategory, ValidationResult, ValidationResultView, ValidationSeverity,
};
use crate::text::{fixed_decimal_digits, fixed_decimal_string, join_texts, joined, text_views};

verus! {

/// A check over a whole snapshot of game state.
pub trait InvariantValidator: Send + Sync {
    /// The finding of the check on a snapshot.
    spec fn verdict(&self, state: &JsonValue) -> ValidationResultView;

    /// The name of the check.
    spec fn validator_name(&self) -> Seq<char>;

    /// What the check is for, in words.
    spec fn validator_description(&self) -> Seq<char>;

    fn validate(&self, state: &JsonValue) -> (result: ValidationResult)
        ensures
            result@ == self.verdict(state),
    ;

    fn name(&self) -> (name: &str)
        ensures
            name@ == self.validator_name(),
    ;

    fn description(&self) -> (text: &str)
        ensures
            text@ == self.validator_description(),
    ;
}

/// The identifier a unit of a snapshot goes by in messages.
pub open spec fn unit_label(unit: JsonValue) -> Seq<char> {
    match value_get(unit, "id"@) {
        Some(id) => match value_as_text(id) {
            Some(text) => text,
            None => "unknown"@,
        },
        None => "unknown"@,
    }
}

/// A numeric member of a unit of a snapshot, in millionths.
pub open spec fn unit_number(unit: JsonValue, key: Seq<char>) -> Option<int> {
    match value_get(unit, key) {
        Some(v) => value_as_fixed(v),
        None => None,
    }
}

/// The health violations of one unit: negative health, and health above
/// the maximum where the unit states one.
pub open spec fn unit_violations(unit: JsonValue) -> Seq<Seq<char>> {
    match unit_number(unit, "hp"@) {
        Some(hp) => {
            let negative = if hp < 0 {
                seq!["Unit "@ + unit_label(unit) + " has negative HP: "@ + fixed_decimal_digits(hp)]
            } else {
                Seq::<Seq<char>>::empty()
            };
            let excess = match unit_number(unit, "max_hp"@) {
                Some(max_hp) => if hp > max_hp {
                    seq![
                        "Unit "@ + unit_label(unit) + " has HP > MaxHP: "@ + fixed_decimal_digits(hp)
                            + " > "@ + fixed_decimal_digits(max_hp),
                    ]
                } else {
                    Seq::<Seq<char>>::empty()
                },
                None => Seq::<Seq<char>>::empty(),
            };
            negative + excess
        },
        None => Seq::empty(),
    }
}

/// The health violations of the first `n` units, in order.
pub open spec fn health_violations(units: Seq<JsonValue>, n: int) -> Seq<Seq<char>>
    decreases n,
{
    if n <= 0 {
        Seq::empty()
    } else {
        health_violations(units, n - 1) + unit_violations(units[n - 1])
    }
}

/// The units of a snapshot: the elements of its `units` array, if it has
/// one.
pub open spec fn snapshot_units(state: JsonValue) -> Seq<JsonValue> {
    match value_get(state, "units"@) {
        Some(v) => match value_as_array(v) {
            Some(items) => items,
            None => Seq::empty(),
        },
        None => Seq::empty(),
    }
}

/// The finding of the health invariant: critical, listing every violation,
/// or a pass where no unit violates it.
pub open spec fn health_verdict(state: &JsonValue) -> ValidationResultView {
    let violations = health_violations(snapshot_units(*state), snapshot_units(*state).len() as int);
    if violations.len() == 0 {
        finding(
            ValidationCategory::CrossSystem,
            ValidationSeverity::Info,
            "global"@,
            "Health invariant satisfied"@,
            "health_invariant"@,
        )
    } else {
        finding(
            ValidationCategory::CrossSystem,
            ValidationSeverity::Critical,
            "global"@,
            "Health invariant violations: "@ + joined(violations, ", "@),
            "health_invariant"@,
        )
    }
}

/// Checks that the health of every unit of a snapshot lies between zero and
/// the unit's maximum.
pub struct HealthInvariantValidator;

impl HealthInvariantValidator {
    /// Appends the health violations of one unit to a list.
    fn note_violations(unit: &JsonValue, violations: &mut Vec<String>)
        ensures
            text_views(final(violations)@) == text_views(old(violations)@) + unit_violations(*unit),
    {
        let ghost before = text_views(violations@);
        let id = match unit.get("id") {
            Some(v) => match v.as_str() {
                Some(text) => text,
                None => "unknown",
            },
            None => "unknown",
        };
        assert(id@ == unit_label(*unit));
        let hp = match unit.get("hp") {
            Some(v) => v.as_fixed(),
            None => None,
        };
        if let Some(hp) = hp {
            if hp < 0 {
                let mut message = String::from_str("Unit ");
                message.append(id);
                message.append(" has negative HP: ");
                message.append(fixed_decimal_string(hp).as_str());
                violations.push(message);
            }
            let max_hp = match unit.get("max_hp") {
                Some(v) => v.as_fixed(),
                None => None,
            };
            if let Some(max_hp) = max_hp {
                if hp > max_hp {
                    let mut message = String::from_str("Unit ");
                    message.append(id);
                    message.append(" has HP > MaxHP: ");
                    message.append(fixed_decimal_string(hp).as_str());
                    message.append(" > ");
                    message.append(fixed_decimal_string(max_hp).as_str());
                    violations.push(message);
                }
            }
        }
        assert(text_views(violations@) =~= before + unit_violations(*unit));
    }
}

impl InvariantValidator for HealthInvariantValidator {
    open spec fn verdict(&self, state: &JsonValue) -> ValidationResultView {
        health_verdict(state)
    }

    open spec fn validator_name(&self) -> Seq<char> {
        "health_invariant"@
    }

    open spec fn validator_description(&self) -> Seq<char> {
        "Ensures unit health is within valid range [0, MaxHP]"@
    }

    fn validate(&self, state: &JsonValue) -> (result: ValidationResult) {
        let mut violations: Vec<String> = Vec::new();
        let ghost units = snapshot_units(*state);
        assert(text_views(violations@) =~= health_violations(units, 0));
        if let Some(listed) = state.get("units") {
            if let Some(items) = listed.as_array() {
                let mut i: usize = 0;
                while i < items.len()
                    invariant
                        i <= items@.len(),
                        items@ == units,
                        text_views(violations@) == health_violations(units, i as int),
                    decreases items@.len() - i,
                {
                    Self::note_violations(&items[i], &mut violations);
                    i += 1;
                }
            }
        }
        assert(text_views(violations@) == health_violations(units, units.len() as int));
        if violations.len() == 0 {
            ValidationResult::of(
                ValidationCategory::CrossSystem,
                ValidationSeverity::Info,
                "global",
                String::from_str("Health invariant satisfied"),
                self.name(),
            )
        } else {
            let mut message = String::from_str("Health invariant violations: ");
            message.append(join_texts(&violations, ", ").as_str());
            ValidationResult::of(
                ValidationCategory::CrossSystem,
                ValidationSeverity::Critical,
                "global",
                message,
                self.name(),
            )
        }
    }

    fn name(&self) -> (name: &str) {
        "health_invariant"
    }

    fn description(&self) -> (text: &str) {
        "Ensures unit health is within valid range [0, MaxHP]"
    }
}

} // verus!
