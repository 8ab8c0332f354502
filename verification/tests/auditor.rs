use std::sync::Arc;
use void_reckoning::auditor::consistency::{HealthInvariantValidator, InvariantValidator};
use void_reckoning::auditor::engine::ValidationEngine;
use void_reckoning::auditor::json::{JsonField, JsonNumber, JsonObject, JsonValue};
use void_reckoning::auditor::registry::Registries;
use void_reckoning::auditor::rules::{
    FieldExistenceRule, ReferenceIntegrityRule, TypeValidationRule, ValidationContext,
    ValidationRule,
};
use void_reckoning::auditor::scheduler::AuditScheduler;
use void_reckoning::auditor::types::{EntityType, ValidationCategory, ValidationSeverity};
use void_reckoning::observability::{EventLog, EventSeverity};

fn object(members: Vec<(&str, JsonValue)>) -> JsonValue {
    JsonValue::Object(JsonObject {
        fields: members
            .into_iter()
            .map(|(key, value)| JsonField { key: key.to_string(), value })
            .collect(),
    })
}

fn text(s: &str) -> JsonValue {
    JsonValue::Text(s.to_string())
}

fn whole(n: u64) -> JsonValue {
    JsonValue::Number(JsonNumber::PosInt(n))
}

fn fraction(millionths: i128) -> JsonValue {
    JsonValue::Number(JsonNumber::Real(millionths))
}

fn registries() -> Registries {
    let mut registries = Registries::new();
    registries.buildings.fields.push(JsonField { key: "Barracks".to_string(), value: JsonValue::Null });
    registries.technology.fields.push(JsonField { key: "Lasers".to_string(), value: JsonValue::Null });
    registries
}

fn context(entity_type: EntityType, data: JsonValue) -> ValidationContext {
    ValidationContext {
        entity_id: "e1".to_string(),
        entity_type,
        data,
        registries: Arc::new(registries()),
        universe_id: "u".to_string(),
        turn: 3,
    }
}

#[test]
fn json_lookup_reads_the_first_member() {
    let value = object(vec![("a", whole(1)), ("b", text("x")), ("a", whole(2))]);
    assert!(matches!(value.get("a"), Some(JsonValue::Number(JsonNumber::PosInt(1)))));
    assert_eq!(value.get("b").and_then(|v| v.as_str()), Some("x"));
    assert!(value.get("c").is_none());
    assert!(whole(1).get("a").is_none());
    assert!(whole(1).is_u64());
    assert!(!whole(1).is_f64());
    assert!(fraction(1).is_f64());
    assert!(!JsonValue::Number(JsonNumber::NegInt(-1)).is_u64());
    assert!(!JsonValue::Number(JsonNumber::NegInt(-1)).is_f64());
    assert_eq!(JsonValue::Number(JsonNumber::NegInt(-2)).as_fixed(), Some(-2_000_000));
    assert_eq!(whole(3).as_fixed(), Some(3_000_000));
    assert_eq!(fraction(1_500_000).as_fixed(), Some(1_500_000));
    assert_eq!(text("x").as_fixed(), None);
    assert_eq!(JsonValue::Bool(true).as_str(), None);
    assert_eq!(JsonValue::Array(vec![whole(1)]).as_array().map(|a| a.len()), Some(1));
    assert!(JsonValue::Null.as_array().is_none());
    assert!(!JsonObject::new().contains_key("a"));
}

#[test]
fn missing_fields_are_critical() {
    let rule = FieldExistenceRule;
    let result = rule.validate(&context(
        EntityType::Unit,
        object(vec![("name", text("Marine")), ("tier", whole(1)), ("speed", whole(2))]),
    ));
    assert_eq!(result.severity, ValidationSeverity::Critical);
    assert_eq!(result.category, ValidationCategory::FileStructure);
    assert_eq!(result.message, "Missing required field: armor");
    assert_eq!(result.entity_id, "e1");
    assert_eq!(result.rule_name, "field_existence");
    assert_eq!(result.file_path, None);
    assert_eq!(result.timestamp, 0);
    let result = rule.validate(&context(EntityType::Unit, JsonValue::Null));
    assert_eq!(result.message, "Missing required field: name");
    let result = rule.validate(&context(
        EntityType::Building,
        object(vec![("name", text("Barracks")), ("tier", whole(1))]),
    ));
    assert_eq!(result.message, "Missing required field: cost");
    let result = rule.validate(&context(EntityType::Faction, object(vec![("name", text("T"))])));
    assert_eq!(result.message, "Missing required field: subfactions");
    let result = rule.validate(&context(
        EntityType::Technology,
        object(vec![("name", text("L")), ("tier", whole(1)), ("cost", whole(5))]),
    ));
    assert_eq!(result.severity, ValidationSeverity::Info);
    assert_eq!(result.message, "All required fields present");
    let result = rule.validate(&context(EntityType::Portal, JsonValue::Null));
    assert_eq!(result.severity, ValidationSeverity::Info);
    assert_eq!(rule.name(), "field_existence");
    assert_eq!(rule.category(), ValidationCategory::FileStructure);
    assert_eq!(rule.severity(), ValidationSeverity::Critical);
    assert!(rule.is_enabled());
}

#[test]
fn wrong_types_are_errors() {
    let rule = TypeValidationRule;
    let result = rule.validate(&context(
        EntityType::Unit,
        object(vec![("tier", text("one")), ("cost", text("free"))]),
    ));
    assert_eq!(result.severity, ValidationSeverity::Error);
    assert_eq!(
        result.message,
        "Type violations: Field 'tier' must be an integer, Field 'cost' must be a number"
    );
    let result =
        rule.validate(&context(EntityType::Unit, object(vec![("tier", fraction(1_500_000))])));
    assert_eq!(result.message, "Type violations: Field 'tier' must be an integer");
    let result = rule.validate(&context(
        EntityType::Unit,
        object(vec![("tier", whole(2)), ("cost", JsonValue::Number(JsonNumber::NegInt(-5)))]),
    ));
    assert_eq!(result.message, "Type violations: Field 'cost' must be a number");
    let result = rule.validate(&context(
        EntityType::Unit,
        object(vec![("tier", whole(2)), ("cost", fraction(2_500_000))]),
    ));
    assert_eq!(result.severity, ValidationSeverity::Info);
    assert_eq!(result.message, "Type validation passed");
    assert_eq!(result.rule_name, "type_validation");
    assert_eq!(rule.severity(), ValidationSeverity::Error);
}

#[test]
fn unknown_references_are_errors() {
    let rule = ReferenceIntegrityRule;
    let result = rule.validate(&context(
        EntityType::Unit,
        object(vec![("required_building", text("Forge"))]),
    ));
    assert_eq!(result.severity, ValidationSeverity::Error);
    assert_eq!(result.category, ValidationCategory::Units);
    assert_eq!(result.message, "Invalid Building Reference: 'Forge'");
    let result = rule.validate(&context(
        EntityType::Unit,
        object(vec![
            ("required_building", text("None")),
            ("required_tech", JsonValue::Array(vec![text("Lasers"), whole(4), text("Shields"), text("Warp")])),
        ]),
    ));
    assert_eq!(result.message, "Invalid Tech Reference: 'Shields'");
    let result = rule.validate(&context(
        EntityType::Unit,
        object(vec![
            ("required_building", text("Barracks")),
            ("required_tech", JsonValue::Array(vec![text("Lasers")])),
        ]),
    ));
    assert_eq!(result.severity, ValidationSeverity::Info);
    assert_eq!(result.message, "Reference integrity valid");
    let result = rule.validate(&context(
        EntityType::Unit,
        object(vec![("required_building", whole(7)), ("required_tech", text("Warp"))]),
    ));
    assert_eq!(result.severity, ValidationSeverity::Info);
    assert_eq!(rule.name(), "reference_integrity");
}

#[test]
fn health_invariant_lists_every_violation() {
    let validator = HealthInvariantValidator;
    let state = object(vec![(
        "units",
        JsonValue::Array(vec![
            object(vec![("id", text("a")), ("hp", whole(5)), ("max_hp", whole(10))]),
            object(vec![("id", text("b")), ("hp", JsonValue::Number(JsonNumber::NegInt(-5)))]),
            object(vec![("hp", fraction(10_500_000)), ("max_hp", whole(10))]),
            object(vec![("id", text("d")), ("hp", fraction(-250_000)), ("max_hp", fraction(-1_000_000))]),
            object(vec![("id", text("e")), ("max_hp", whole(1))]),
        ]),
    )]);
    let result = validator.validate(&state);
    assert_eq!(result.severity, ValidationSeverity::Critical);
    assert_eq!(result.category, ValidationCategory::CrossSystem);
    assert_eq!(result.entity_id, "global");
    assert_eq!(result.rule_name, "health_invariant");
    assert_eq!(
        result.message,
        "Health invariant violations: Unit b has negative HP: -5, \
         Unit unknown has HP > MaxHP: 10.5 > 10, Unit d has negative HP: -0.25, \
         Unit d has HP > MaxHP: -0.25 > -1"
    );
    let fine = object(vec![(
        "units",
        JsonValue::Array(vec![object(vec![("id", text("a")), ("hp", whole(5)), ("max_hp", whole(5))])]),
    )]);
    let result = validator.validate(&fine);
    assert_eq!(result.severity, ValidationSeverity::Info);
    assert_eq!(result.message, "Health invariant satisfied");
    assert_eq!(validator.validate(&JsonValue::Null).severity, ValidationSeverity::Info);
    assert_eq!(validator.name(), "health_invariant");
    assert_eq!(validator.description(), "Ensures unit health is within valid range [0, MaxHP]");
}

#[test]
fn engine_returns_findings_in_rule_order_and_logs_them() {
    let mut engine = ValidationEngine::new(Arc::new(registries()));
    let log = EventLog::new();
    engine.set_event_log(log.clone());
    let results = engine.validate_entity(
        "tank".to_string(),
        EntityType::Unit,
        object(vec![("name", text("Tank")), ("tier", text("high")), ("required_building", text("Forge"))]),
        "u1".to_string(),
        4,
    );
    assert_eq!(results.len(), 3);
    assert_eq!(results[0].rule_name, "field_existence");
    assert_eq!(results[0].message, "Missing required field: armor");
    assert_eq!(results[1].rule_name, "type_validation");
    assert_eq!(results[2].rule_name, "reference_integrity");
    let events = log.get_all();
    assert_eq!(events.len(), 3);
    assert_eq!(events[0].severity, EventSeverity::Critical);
    assert_eq!(events[0].category, "Auditor");
    assert_eq!(events[0].message, "[Rule: field_existence] Missing required field: armor");
    assert_eq!(events[0].data, Some("tank".to_string()));
    assert_eq!(events[1].severity, EventSeverity::Error);
    assert_eq!(events[2].message, "[Rule: reference_integrity] Invalid Building Reference: 'Forge'");
    assert_eq!(events[0].context.parent_id, Some(engine.current_context.span_id.clone()));
    let clean = engine.validate_entity(
        "portal".to_string(),
        EntityType::Portal,
        JsonValue::Null,
        "u1".to_string(),
        4,
    );
    assert!(clean.is_empty());
    assert_eq!(log.get_all().len(), 3);
}

#[test]
fn batch_report_counts_by_severity() {
    let engine = ValidationEngine::new(Arc::new(registries()));
    let report = engine.validate_batch(
        vec![
            ("ok".to_string(), EntityType::Campaign, JsonValue::Null),
            (
                "bad".to_string(),
                EntityType::Building,
                object(vec![("name", text("B")), ("tier", text("x")), ("cost", whole(1))]),
            ),
            ("worse".to_string(), EntityType::Faction, object(vec![("required_building", text("Forge"))])),
            ("fine".to_string(), EntityType::Portal, object(vec![("tier", whole(1))])),
        ],
        "alpha".to_string(),
        12,
    );
    assert_eq!(report.summary.total_checks, 4);
    assert_eq!(report.summary.passed, 2);
    assert_eq!(report.summary.warnings, 0);
    assert_eq!(report.summary.errors, 2);
    assert_eq!(report.summary.critical, 1);
    assert_eq!(report.correlation_id, "alpha-12");
    let ids: Vec<&str> = report.results.iter().map(|r| r.entity_id.as_str()).collect();
    assert_eq!(ids, vec!["bad", "worse", "worse"]);
    assert_eq!(report.results[1].severity, ValidationSeverity::Critical);
    let empty = engine.validate_batch(Vec::new(), "beta".to_string(), 0);
    assert_eq!(empty.summary.total_checks, 0);
    assert_eq!(empty.correlation_id, "beta-0");
    assert!(empty.results.is_empty());
}

#[test]
fn audits_come_due_by_turn_or_by_time() {
    let mut scheduler = AuditScheduler::new(3_600_000, 5);
    assert!(!scheduler.due_after(0, 4));
    assert!(scheduler.due_after(0, 5));
    assert!(scheduler.due_after(3_600_000, 0));
    assert!(!scheduler.due_after(3_599_999, 0));
    assert!(!scheduler.should_audit(4));
    assert!(scheduler.should_audit(5));
    scheduler.mark_audited(5);
    assert!(!scheduler.should_audit(9));
    assert!(scheduler.should_audit(10));
    let always = AuditScheduler::new(0, 1_000);
    assert!(always.should_audit(0));
}

#[test]
fn names_stand_for_entity_types_and_registries() {
    assert_eq!(EntityType::from_name("unit"), Some(EntityType::Unit));
    assert_eq!(EntityType::from_name("building"), Some(EntityType::Building));
    assert_eq!(EntityType::from_name("technology"), Some(EntityType::Technology));
    assert_eq!(EntityType::from_name("faction"), Some(EntityType::Faction));
    assert_eq!(EntityType::from_name("portal"), Some(EntityType::Portal));
    assert_eq!(EntityType::from_name("campaign"), Some(EntityType::Campaign));
    assert_eq!(EntityType::from_name("Unit"), None);
    assert_eq!(EntityType::from_name("fleet"), None);
    let mut registries = Registries::new();
    let data = || JsonObject { fields: vec![JsonField { key: "k".to_string(), value: JsonValue::Null }] };
    assert!(registries.load("buildings", data()));
    assert!(registries.buildings.contains_key("k"));
    assert!(!registries.technology.contains_key("k"));
    assert!(registries.load("technology", data()));
    assert!(registries.load("factions", data()));
    assert!(registries.load("weapons", data()));
    assert!(!registries.abilities.contains_key("k"));
    assert!(registries.load("abilities", data()));
    assert!(registries.abilities.contains_key("k"));
    assert!(!registries.load("units", JsonObject::new()));
    assert!(registries.weapons.contains_key("k"));
}
