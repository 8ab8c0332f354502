//! Findings and reports of the auditor.
use vstd::prelude::*;
use vstd::string::StringExecFns;
use crate::text::same_text;

verus! {

/// The subsystem a finding belongs to.
#[derive(Debug, Clone, Copy, PartialEq, Eq, Hash, Structural)]
pub enum ValidationCategory {
    Units,
    Buildings,
    Technology,
    Factions,
    FileStructure,
    Portals,
    Campaign,
    CrossSystem,
}

/// How serious a finding is. `Info` marks a check that passed.
#[derive(Debug, Clone, Copy, PartialEq, Eq, Hash, Structural)]
pub enum ValidationSeverity {
    Info,
    Warning,
    Error,
    Critical,
}

/// What kind of entity is being validated.
#[derive(Debug, Clone, Copy, PartialEq, Eq, Hash, Structural)]
pub enum EntityType {
    Unit,
    Building,
    Technology,
    Faction,
    Portal,
    Campaign,
}

/// The outcome of one rule on one entity.
#[derive(Debug, Clone)]
pub struct ValidationResult {
    pub category: ValidationCategory,
    pub severity: ValidationSeverity,
    pub entity_id: String,
    pub message: String,
    pub rule_name: String,
    pub file_path: Option<String>,
    pub timestamp: u64,
}

/// Counts over a batch of validated entities.
#[derive(Debug, Clone)]
pub struct ValidationSummary {
    pub total_checks: usize,
    pub passed: usize,
    pub warnings: usize,
    pub errors: usize,
    pub critical: usize,
}

/// The findings of a batch, with their summary.
#[derive(Debug, Clone)]
pub struct ValidationReport {
    pub results: Vec<ValidationResult>,
    pub summary: ValidationSummary,
    pub correlation_id: String,
}

/// Mathematical view of a [`ValidationResult`].
pub struct ValidationResultView {
    pub category: ValidationCategory,
    pub severity: ValidationSeverity,
    pub entity_id: Seq<char>,
    pub message: Seq<char>,
    pub rule_name: Seq<char>,
    pub file_path: Option<Seq<char>>,
    pub timestamp: u64,
}

impl View for ValidationResult {
    type V = ValidationResultView;

    open spec fn view(&self) -> ValidationResultView {
        ValidationResultView {
            category: self.category,
            severity: self.severity,
            entity_id: self.entity_id@,
            message: self.message@,
            rule_name: self.rule_name@,
            file_path: match self.file_path {
                Some(path) => Some(path@),
                None => None,
            },
            timestamp: self.timestamp,
        }
    }
}

/// Views of a sequence of findings, position by position.
pub open spec fn result_views(results: Seq<ValidationResult>) -> Seq<ValidationResultView> {
    Seq::new(results.len(), |i: int| results[i]@)
}

/// The finding of a rule on an entity, with no file and no time attached.
pub open spec fn finding(
    category: ValidationCategory,
    severity: ValidationSeverity,
    entity_id: Seq<char>,
    message: Seq<char>,
    rule_name: Seq<char>,
) -> ValidationResultView {
    ValidationResultView {
        category,
        severity,
        entity_id,
        message,
        rule_name,
        file_path: None,
        timestamp: 0,
    }
}

impl ValidationResult {
    /// The finding of a rule on an entity, with no file and no time
    /// attached.
    pub fn of(
        category: ValidationCategory,
        severity: ValidationSeverity,
        entity_id: &str,
        message: String,
        rule_name: &str,
    ) -> (result: Self)
        ensures
            result@ == finding(category, severity, entity_id@, message@, rule_name@),
    {
        ValidationResult {
            category,
            severity,
            entity_id: String::from_str(entity_id),
            message,
            rule_name: String::from_str(rule_name),
            file_path: None,
            timestamp: 0,
        }
    }
}

/// The entity type that a name stands for, if it stands for one.
pub open spec fn entity_type_named(name: Seq<char>) -> Option<EntityType> {
    if name == "unit"@ {
        Some(EntityType::Unit)
    } else if name == "building"@ {
        Some(EntityType::Building)
    } else if name == "technology"@ {
        Some(EntityType::Technology)
    } else if name == "faction"@ {
        Some(EntityType::Faction)
    } else if name == "portal"@ {
        Some(EntityType::Portal)
    } else if name == "campaign"@ {
        Some(EntityType::Campaign)
    } else {
        None
    }
}

impl EntityType {
    /// Reads an entity type from its lower-case name.
    pub fn from_name(name: &str) -> (entity_type: Option<EntityType>)
        ensures
            entity_type == entity_type_named(name@),
    {
        if same_text(name, "unit") {
            Some(EntityType::Unit)
        } else if same_text(name, "building") {
            Some(EntityType::Building)
        } else if same_text(name, "technology") {
            Some(EntityType::Technology)
        } else if same_text(name, "faction") {
            Some(EntityType::Faction)
        } else if same_text(name, "portal") {
            Some(EntityType::Portal)
        } else if same_text(name, "campaign") {
            Some(EntityType::Campaign)
        } else {
            None
        }
    }
}

} // verus!
