//! The validation engine: applies the rules to entities, reports findings
//! to an attached event log and summarises batches.
use vstd::prelude::*;
use vstd::string::StringExecFns;
use std::sync::Arc;
use crate::auditor::json::JsonValue;
use crate::auditor::registry::Registries;
use crate::auditor::rules::{
    FieldExistenceRule, ReferenceIntegrityRule, TypeValidationRule, ValidationContext,
    ValidationRule,
};
use crate::auditor::types::{
    result_views, EntityType, ValidationCategory, ValidationReport, ValidationResult,
    ValidationResultView, ValidationSeverity, ValidationSummary,
};
use crate::observability::{CorrelationContext, Event, EventLog, EventSeverity};
use crate::text::{decimal_digits, decimal_string};

verus! {

/// One of the rules the engine knows.
pub enum BuiltinRule {
    FieldExistence(FieldExistenceRule),
    TypeValidation(TypeValidationRule),
    ReferenceIntegrity(ReferenceIntegrityRule),
}

impl ValidationRule for BuiltinRule {
    open spec fn verdict(&self, context: &ValidationContext) -> ValidationResultView {
        match self {
            BuiltinRule::FieldExistence(rule) => rule.verdict(context),
            BuiltinRule::TypeValidation(rule) => rule.verdict(context),
            BuiltinRule::ReferenceIntegrity(rule) => rule.verdict(context),
        }
    }

    open spec fn rule_name(&self) -> Seq<char> {
        match self {
            BuiltinRule::FieldExistence(rule) => rule.rule_name(),
            BuiltinRule::TypeValidation(rule) => rule.rule_name(),
            BuiltinRule::ReferenceIntegrity(rule) => rule.rule_name(),
        }
    }

    open spec fn rule_category(&self) -> ValidationCategory {
        match self {
            BuiltinRule::FieldExistence(rule) => rule.rule_category(),
            BuiltinRule::TypeValidation(rule) => rule.rule_category(),
            BuiltinRule::ReferenceIntegrity(rule) => rule.rule_category(),
        }
    }

    open spec fn rule_severity(&self) -> ValidationSeverity {
        match self {
            BuiltinRule::FieldExistence(rule) => rule.rule_severity(),
            BuiltinRule::TypeValidation(rule) => rule.rule_severity(),
            BuiltinRule::ReferenceIntegrity(rule) => rule.rule_severity(),
        }
    }

    open spec fn enabled(&self) -> bool {
        match self {
            BuiltinRule::FieldExistence(rule) => rule.enabled(),
            BuiltinRule::TypeValidation(rule) => rule.enabled(),
            BuiltinRule::ReferenceIntegrity(rule) => rule.enabled(),
        }
    }

    fn validate(&self, context: &ValidationContext) -> (result: ValidationResult) {
        match self {
            BuiltinRule::FieldExistence(rule) => rule.validate(context),
            BuiltinRule::TypeValidation(rule) => rule.validate(context),
            BuiltinRule::ReferenceIntegrity(rule) => rule.validate(context),
        }
    }

    fn name(&self) -> (name: &str) {
        match self {
            BuiltinRule::FieldExistence(rule) => rule.name(),
            BuiltinRule::TypeValidation(rule) => rule.name(),
            BuiltinRule::ReferenceIntegrity(rule) => rule.name(),
        }
    }

    fn category(&self) -> (category: ValidationCategory) {
        match self {
            BuiltinRule::FieldExistence(rule) => rule.category(),
            BuiltinRule::TypeValidation(rule) => rule.category(),
            BuiltinRule::ReferenceIntegrity(rule) => rule.category(),
        }
    }

    fn severity(&self) -> (severity: ValidationSeverity) {
        match self {
            BuiltinRule::FieldExistence(rule) => rule.severity(),
            BuiltinRule::TypeValidation(rule) => rule.severity(),
            BuiltinRule::ReferenceIntegrity(rule) => rule.severity(),
        }
    }

    fn is_enabled(&self) -> (enabled: bool) {
        match self {
            BuiltinRule::FieldExistence(rule) => rule.is_enabled(),
            BuiltinRule::TypeValidation(rule) => rule.is_enabled(),
            BuiltinRule::ReferenceIntegrity(rule) => rule.is_enabled(),
        }
    }
}

/// Applies the rules to entities.
pub struct ValidationEngine {
    pub rules: Vec<BuiltinRule>,
    pub registries: Arc<Registries>,
    /// Where findings are sent, once a log is attached.
    pub event_log: Option<EventLog>,
    /// The context that emitted events are derived from.
    pub current_context: CorrelationContext,
}

/// Another handle on shared registries: `Arc::clone`, which yields a
/// pointer to the same value.
#[verifier::external_body]
fn share_registries(registries: &Arc<Registries>) -> (shared: Arc<Registries>)
    ensures
        shared == *registries,
{
    Arc::clone(registries)
}

/// The findings of the first `n` rules on an entity that are not passes,
/// in rule order.
pub open spec fn findings(rules: Seq<BuiltinRule>, context: &ValidationContext, n: int) -> Seq<
    ValidationResultView,
>
    decreases n,
{
    if n <= 0 {
        Seq::empty()
    } else if rules[n - 1].enabled() && rules[n - 1].verdict(context).severity
        != ValidationSeverity::Info {
        findings(rules, context, n - 1).push(rules[n - 1].verdict(context))
    } else {
        findings(rules, context, n - 1)
    }
}

/// The severity of the event that reports a finding.
pub open spec fn event_severity_of(severity: ValidationSeverity) -> EventSeverity {
    match severity {
        ValidationSeverity::Warning => EventSeverity::Warning,
        ValidationSeverity::Error => EventSeverity::Error,
        ValidationSeverity::Critical => EventSeverity::Critical,
        ValidationSeverity::Info => EventSeverity::Info,
    }
}

/// The text of the event that reports a finding.
pub open spec fn finding_message(result: ValidationResultView) -> Seq<char> {
    "[Rule: "@ + result.rule_name + "] "@ + result.message
}

/// The event that reports a finding, in the auditor category, under a
/// child of the given context, with the entity's identifier as its data.
pub fn finding_event(result: &ValidationResult, context: &CorrelationContext) -> (event: Event)
    ensures
        event.severity == event_severity_of(result.severity),
        event.category@ == "Auditor"@,
        event.message@ == finding_message(result@),
        event.context.trace_id@ == context.trace_id@,
        event.context.parent_id.is_some(),
        event.context.parent_id.unwrap()@ == context.span_id@,
        event.data.is_some(),
        event.data.unwrap()@ == result.entity_id@,
{
    let severity = match result.severity {
        ValidationSeverity::Warning => EventSeverity::Warning,
        ValidationSeverity::Error => EventSeverity::Error,
        ValidationSeverity::Critical => EventSeverity::Critical,
        ValidationSeverity::Info => EventSeverity::Info,
    };
    let mut message = String::from_str("[Rule: ");
    message.append(result.rule_name.as_str());
    message.append("] ");
    message.append(result.message.as_str());
    Event::new(
        severity,
        String::from_str("Auditor"),
        message,
        context.child(),
        Some(result.entity_id.clone()),
    )
}

/// How many findings of a list have the given severity.
pub open spec fn count_severity(results: Seq<ValidationResultView>, severity: ValidationSeverity) -> int
    decreases results.len(),
{
    if results.len() == 0 {
        0
    } else if results.last().severity == severity {
        count_severity(results.drop_last(), severity) + 1
    } else {
        count_severity(results.drop_last(), severity)
    }
}

/// The context an entity of a batch is validated in.
pub open spec fn batch_context(
    entity: (String, EntityType, JsonValue),
    registries: Arc<Registries>,
    universe_id: String,
    turn: u64,
) -> ValidationContext {
    ValidationContext {
        entity_id: entity.0,
        entity_type: entity.1,
        data: entity.2,
        registries,
        universe_id,
        turn,
    }
}

/// The findings on the first `n` entities of a batch, entity by entity.
pub open spec fn batch_findings(
    rules: Seq<BuiltinRule>,
    registries: Arc<Registries>,
    entities: Seq<(String, EntityType, JsonValue)>,
    universe_id: String,
    turn: u64,
    n: int,
) -> Seq<ValidationResultView>
    decreases n,
{
    if n <= 0 {
        Seq::empty()
    } else {
        batch_findings(rules, registries, entities, universe_id, turn, n - 1) + findings(
            rules,
            &batch_context(entities[n - 1], registries, universe_id, turn),
            rules.len() as int,
        )
    }
}

/// How many of the first `n` entities of a batch have no findings.
pub open spec fn batch_passed(
    rules: Seq<BuiltinRule>,
    registries: Arc<Registries>,
    entities: Seq<(String, EntityType, JsonValue)>,
    universe_id: String,
    turn: u64,
    n: int,
) -> int
    decreases n,
{
    if n <= 0 {
        0
    } else if findings(
        rules,
        &batch_context(entities[n - 1], registries, universe_id, turn),
        rules.len() as int,
    ).len() == 0 {
        batch_passed(rules, registries, entities, universe_id, turn, n - 1) + 1
    } else {
        batch_passed(rules, registries, entities, universe_id, turn, n - 1)
    }
}

/// The correlation identifier of a batch: the universe and the turn.
pub open spec fn batch_correlation_id(universe_id: Seq<char>, turn: u64) -> Seq<char> {
    universe_id + "-"@ + decimal_digits(turn as nat)
}

impl ValidationEngine {
    /// An engine with the field existence, type validation and reference
    /// integrity rules, in that order, with no event log and a fresh root
    /// context.
    pub fn new(registries: Arc<Registries>) -> (engine: Self)
        ensures
            engine.rules@.len() == 3,
            engine.rules@[0] is FieldExistence,
            engine.rules@[1] is TypeValidation,
            engine.rules@[2] is ReferenceIntegrity,
            engine.registries == registries,
            engine.event_log.is_none(),
            engine.current_context.parent_id.is_none(),
    {
        let mut rules: Vec<BuiltinRule> = Vec::new();
        rules.push(BuiltinRule::FieldExistence(FieldExistenceRule));
        rules.push(BuiltinRule::TypeValidation(TypeValidationRule));
        rules.push(BuiltinRule::ReferenceIntegrity(ReferenceIntegrityRule));
        ValidationEngine {
            rules,
            registries,
            event_log: None,
            current_context: CorrelationContext::new(),
        }
    }

    /// Attaches the log that findings are sent to.
    pub fn set_event_log(&mut self, log: EventLog)
        ensures
            final(self).event_log == Some(log),
            final(self).rules == old(self).rules,
            final(self).registries == old(self).registries,
            final(self).current_context == old(self).current_context,
    {
        self.event_log = Some(log);
    }

    /// Installs the context that emitted events are derived from.
    pub fn set_correlation_context(&mut self, context: CorrelationContext)
        ensures
            final(self).current_context == context,
            final(self).rules == old(self).rules,
            final(self).registries == old(self).registries,
            final(self).event_log == old(self).event_log,
    {
        self.current_context = context;
    }

    /// Sends a finding to the attached log. Without a log nothing is sent.
    fn report_finding(&self, result: &ValidationResult) {
        match &self.event_log {
            Some(log) => {
                log.add(finding_event(result, &self.current_context));
            },
            None => {},
        }
    }

    /// Applies every enabled rule to an entity in its context. Returns the
    /// findings that are not passes, in rule order, and reports each to the
    /// attached log.
    pub fn validate_context(&self, context: &ValidationContext) -> (results: Vec<ValidationResult>)
        ensures
            result_views(results@) == findings(self.rules@, context, self.rules@.len() as int),
            results@.len() <= self.rules@.len(),
    {
        let mut results: Vec<ValidationResult> = Vec::new();
        let mut i: usize = 0;
        assert(result_views(results@) =~= findings(self.rules@, context, 0));
        while i < self.rules.len()
            invariant
                i <= self.rules@.len(),
                results@.len() <= i,
                result_views(results@) == findings(self.rules@, context, i as int),
            decreases self.rules@.len() - i,
        {
            let rule = &self.rules[i];
            let ghost before = result_views(results@);
            if rule.is_enabled() {
                let result = rule.validate(context);
                if result.severity != ValidationSeverity::Info {
                    self.report_finding(&result);
                    results.push(result);
                    assert(result_views(results@) =~= before.push(result@));
                }
            }
            i += 1;
        }
        results
    }

    /// Validates one entity: builds its context around the engine's
    /// registries and applies every enabled rule. Returns the findings that
    /// are not passes, in rule order, and reports each to the attached log.
    pub fn validate_entity(
        &self,
        entity_id: String,
        entity_type: EntityType,
        data: JsonValue,
        universe_id: String,
        turn: u64,
    ) -> (results: Vec<ValidationResult>)
        ensures
            result_views(results@) == findings(
                self.rules@,
                &(ValidationContext {
                    entity_id,
                    entity_type,
                    data,
                    registries: self.registries,
                    universe_id,
                    turn,
                }),
                self.rules@.len() as int,
            ),
            results@.len() <= self.rules@.len(),
    {
        let context = ValidationContext {
            entity_id,
            entity_type,
            data,
            registries: share_registries(&self.registries),
            universe_id,
            turn,
        };
        self.validate_context(&context)
    }

    /// Validates a batch of entities. The report holds the findings that
    /// are not passes, entity by entity, counts the entities without
    /// findings and the findings of each severity, and is identified by the
    /// universe and the turn.
    pub fn validate_batch(
        &self,
        entities: Vec<(String, EntityType, JsonValue)>,
        universe_id: String,
        turn: u64,
    ) -> (report: ValidationReport)
        ensures
            result_views(report.results@) == batch_findings(
                self.rules@,
                self.registries,
                entities@,
                universe_id,
                turn,
                entities@.len() as int,
            ),
            report.summary.total_checks == entities@.len(),
            report.summary.passed == batch_passed(
                self.rules@,
                self.registries,
                entities@,
                universe_id,
                turn,
                entities@.len() as int,
            ),
            report.summary.warnings == count_severity(
                result_views(report.results@),
                ValidationSeverity::Warning,
            ),
            report.summary.errors == count_severity(
                result_views(report.results@),
                ValidationSeverity::Error,
            ),
            report.summary.critical == count_severity(
                result_views(report.results@),
                ValidationSeverity::Critical,
            ),
            report.correlation_id@ == batch_correlation_id(universe_id@, turn),
    {
        let ghost all_entities = entities@;
        let total_checks = entities.len();
        let mut all_results: Vec<ValidationResult> = Vec::new();
        let mut passed: usize = 0;
        let mut warnings: usize = 0;
        let mut errors: usize = 0;
        let mut critical: usize = 0;
        let mut entities = entities;
        let mut done: usize = 0;
        proof {
            assert(result_views(all_results@) =~= batch_findings(
                self.rules@,
                self.registries,
                all_entities,
                universe_id,
                turn,
                0,
            ));
        }
        while entities.len() > 0
            invariant
                all_entities.len() == total_checks,
                done + entities@.len() == all_entities.len(),
                entities@ == all_entities.subrange(done as int, all_entities.len() as int),
                result_views(all_results@) == batch_findings(
                    self.rules@,
                    self.registries,
                    all_entities,
                    universe_id,
                    turn,
                    done as int,
                ),
                passed == batch_passed(
                    self.rules@,
                    self.registries,
                    all_entities,
                    universe_id,
                    turn,
                    done as int,
                ),
                passed <= done,
                warnings == count_severity(result_views(all_results@), ValidationSeverity::Warning),
                errors == count_severity(result_views(all_results@), ValidationSeverity::Error),
                critical == count_severity(result_views(all_results@), ValidationSeverity::Critical),
                warnings <= all_results@.len(),
                errors <= all_results@.len(),
                critical <= all_results@.len(),
            decreases entities@.len(),
        {
            let entity = entities.remove(0);
            assert(entity == all_entities[done as int]);
            let (entity_id, entity_type, data) = entity;
            let context = ValidationContext {
                entity_id,
                entity_type,
                data,
                registries: share_registries(&self.registries),
                universe_id: universe_id.clone(),
                turn,
            };
            assert(context == batch_context(
                all_entities[done as int],
                self.registries,
                universe_id,
                turn,
            ));
            let mut results = self.validate_context(&context);
            let ghost found = result_views(results@);
            let ghost before = result_views(all_results@);
            if results.len() == 0 {
                passed = passed + 1;
                assert(result_views(all_results@) =~= before + found);
            } else {
                let start = all_results.len();
                all_results.append(&mut results);
                assert(result_views(all_results@) =~= before + found);
                let mut k: usize = start;
                assert(result_views(all_results@).take(k as int) =~= before);
                while k < all_results.len()
                    invariant
                        start <= k <= all_results@.len(),
                        warnings == count_severity(
                            result_views(all_results@).take(k as int),
                            ValidationSeverity::Warning,
                        ),
                        errors == count_severity(
                            result_views(all_results@).take(k as int),
                            ValidationSeverity::Error,
                        ),
                        critical == count_severity(
                            result_views(all_results@).take(k as int),
                            ValidationSeverity::Critical,
                        ),
                        warnings <= k,
                        errors <= k,
                        critical <= k,
                    decreases all_results@.len() - k,
                {
                    proof {
                        let views = result_views(all_results@);
                        assert(views.take(k + 1).drop_last() =~= views.take(k as int));
                        assert(views.take(k + 1).last() == all_results@[k as int]@);
                    }
                    match all_results[k].severity {
                        ValidationSeverity::Info => {},
                        ValidationSeverity::Warning => {
                            warnings = warnings + 1;
                        },
                        ValidationSeverity::Error => {
                            errors = errors + 1;
                        },
                        ValidationSeverity::Critical => {
                            critical = critical + 1;
                        },
                    }
                    k += 1;
                }
                assert(result_views(all_results@).take(all_results@.len() as int) =~= result_views(
                    all_results@,
                ));
            }
            done = done + 1;
            assert(entities@ =~= all_entities.subrange(done as int, all_entities.len() as int));
        }
        let mut correlation_id = universe_id;
        proof {
            reveal_strlit("-");
        }
        correlation_id.append("-");
        correlation_id.append(decimal_string(turn as u128).as_str());
        ValidationReport {
            results: all_results,
            summary: ValidationSummary { total_checks, passed, warnings, errors, critical },
            correlation_id,
        }
    }
}

} // verus!
